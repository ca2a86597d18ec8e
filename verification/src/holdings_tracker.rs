//! What each bundle holds of each asset, and what a redemption takes of it.
//!
//! A redemption of `r` out of `t` bundle tokens takes `amount * r / t` of
//! every holding, truncated toward zero: the bundle is never left with less
//! than its share.

use vstd::prelude::*;
use crate::error::Error;
use crate::types::{AssetId, AssetWithdrawal, BundleHolding, WithdrawalAssetBreakdown};

verus! {

/// Whether the holding is the one of this bundle and asset.
pub open spec fn holding_matches(holding: BundleHolding, bundle_id: u64, asset_id: Seq<char>) -> bool {
    holding.bundle_id == bundle_id && holding.asset_id@ == asset_id
}

/// Whether the bundle has a holding of the asset.
pub open spec fn has_holding(holdings: Seq<BundleHolding>, bundle_id: u64, asset_id: Seq<char>) -> bool {
    exists|i: int| 0 <= i < holdings.len() && holding_matches(#[trigger] holdings[i], bundle_id, asset_id)
}

/// What the bundle holds of the asset; zero where it has no holding.
pub open spec fn holding_amount(holdings: Seq<BundleHolding>, bundle_id: u64, asset_id: Seq<char>) -> u64 {
    if has_holding(holdings, bundle_id, asset_id) {
        holdings[choose|i: int|
            0 <= i < holdings.len() && holding_matches(#[trigger] holdings[i], bundle_id, asset_id)].amount
    } else {
        0
    }
}

/// No bundle has two holdings of one asset, and no holding is empty.
pub open spec fn valid_holdings(holdings: Seq<BundleHolding>) -> bool {
    &&& forall|i: int, j: int|
        0 <= i < j < holdings.len() ==> !holding_matches(
            #[trigger] holdings[i],
            (#[trigger] holdings[j]).bundle_id,
            holdings[j].asset_id@,
        )
    &&& forall|i: int| 0 <= i < holdings.len() ==> (#[trigger] holdings[i]).amount > 0
}

/// With valid holdings, the amount found for a bundle and an asset is the
/// one at any index that holds them.
pub proof fn lemma_holding_at(holdings: Seq<BundleHolding>, i: int)
    requires
        valid_holdings(holdings),
        0 <= i < holdings.len(),
    ensures
        has_holding(holdings, holdings[i].bundle_id, holdings[i].asset_id@),
        holding_amount(holdings, holdings[i].bundle_id, holdings[i].asset_id@) == holdings[i].amount,
{
    let h = holdings[i];
    let c = choose|k: int| 0 <= k < holdings.len() && holding_matches(#[trigger] holdings[k], h.bundle_id, h.asset_id@);
    if c < i {
        assert(!holding_matches(holdings[c], holdings[i].bundle_id, holdings[i].asset_id@));
    } else if i < c {
        assert(!holding_matches(holdings[i], holdings[c].bundle_id, holdings[c].asset_id@));
    }
}

/// What a change of a holding by `change` gives: the new amount, or why the
/// change is refused.
pub open spec fn changed_amount(current: u64, change: i64) -> Result<u64, Error> {
    if change >= 0 {
        if current + change > u64::MAX {
            Err(Error::HoldingsOverflow)
        } else {
            Ok((current + change) as u64)
        }
    } else if current < -change {
        Err(Error::InsufficientHoldings)
    } else {
        Ok((current + change) as u64)
    }
}

/// What adding `amount` to a holding, or taking it away, gives: the new
/// amount, or why the change is refused.
pub open spec fn adjusted_amount(current: u64, increase: bool, amount: u64) -> Result<u64, Error> {
    if increase {
        if current + amount > u64::MAX {
            Err(Error::HoldingsOverflow)
        } else {
            Ok((current + amount) as u64)
        }
    } else if current < amount {
        Err(Error::InsufficientHoldings)
    } else {
        Ok((current - amount) as u64)
    }
}

/// The share of `amount` that a redemption of `redeem` out of `total`
/// tokens takes, truncated toward zero.
pub open spec fn proportional_share(amount: u64, redeem: u64, total: u64) -> u64
    recommends
        0 < total,
        redeem <= total,
{
    (amount as nat * redeem as nat / total as nat) as u64
}

/// A share is never more than the holding it is taken from.
pub proof fn lemma_share_within_amount(amount: u64, redeem: u64, total: u64)
    requires
        0 < total,
        redeem <= total,
    ensures
        amount as nat * redeem as nat / total as nat <= amount,
{
    assert(amount as nat * redeem as nat <= amount as nat * total as nat) by (nonlinear_arith)
        requires
            redeem <= total,
    ;
    vstd::arithmetic::div_mod::lemma_div_is_ordered(
        amount as int * redeem as int,
        amount as int * total as int,
        total as int,
    );
    vstd::arithmetic::div_mod::lemma_div_multiples_vanish(amount as int, total as int);
    assert(amount as int * total as int == total as int * amount as int) by (nonlinear_arith);
}

/// What a redemption takes of each holding of the bundle: the holdings in
/// their order, without those of which it takes nothing.
pub open spec fn withdrawals_of(holdings: Seq<BundleHolding>, bundle_id: u64, redeem: u64, total: u64) -> Seq<
    AssetWithdrawal,
>
    decreases holdings.len(),
{
    if holdings.len() == 0 {
        Seq::<AssetWithdrawal>::empty()
    } else {
        let rest = withdrawals_of(holdings.drop_last(), bundle_id, redeem, total);
        let last = holdings.last();
        let share = proportional_share(last.amount, redeem, total);
        if last.bundle_id == bundle_id && share > 0 {
            rest.push(
                AssetWithdrawal {
                    asset_id: last.asset_id,
                    amount: share,
                    remaining_in_bundle: (last.amount - share) as u64,
                },
            )
        } else {
            rest
        }
    }
}

/// What `calculate_proportional_withdrawal` returns.
pub open spec fn proportional_withdrawal(holdings: Seq<BundleHolding>, bundle_id: u64, redeem: u64, total: u64) -> Result<
    Seq<AssetWithdrawal>,
    Error,
> {
    if total == 0 {
        Err(Error::NoTokensIssued)
    } else if redeem > total {
        Err(Error::RedeemExceedsSupply)
    } else {
        Ok(withdrawals_of(holdings, bundle_id, redeem, total))
    }
}

/// The share that a redemption takes of an amount.
pub fn share_of(amount: u64, redeem: u64, total: u64) -> (share: u64)
    requires
        0 < total,
        redeem <= total,
    ensures
        share == proportional_share(amount, redeem, total),
        share <= amount,
{
    proof {
        lemma_share_within_amount(amount, redeem, total);
    }
    assert(amount as u128 * redeem as u128 <= 0xFFFF_FFFF_FFFF_FFFF * 0xFFFF_FFFF_FFFF_FFFF) by (nonlinear_arith)
        requires
            amount <= 0xFFFF_FFFF_FFFF_FFFF,
            redeem <= 0xFFFF_FFFF_FFFF_FFFF,
    ;
    (amount as u128 * redeem as u128 / total as u128) as u64
}

/// The holdings of all bundles.
pub struct HoldingsTracker {
    holdings: Vec<BundleHolding>,
}

impl HoldingsTracker {
    /// The holdings, in the order in which they came to be.
    pub closed spec fn view(&self) -> Seq<BundleHolding> {
        self.holdings@
    }

    /// The invariant: no duplicates, no empty holdings.
    pub open spec fn wf(&self) -> bool {
        valid_holdings(self@)
    }

    /// A tracker without holdings.
    pub fn new() -> (r: HoldingsTracker)
        ensures
            r.wf(),
            r@ == Seq::<BundleHolding>::empty(),
    {
        HoldingsTracker { holdings: Vec::new() }
    }

    fn position(&self, bundle_id: u64, asset_id: &AssetId) -> (r: Option<usize>)
        requires
            self.wf(),
        ensures
            r is Some <==> has_holding(self@, bundle_id, asset_id@),
            r matches Some(i) ==> i < self@.len() && holding_matches(self@[i as int], bundle_id, asset_id@)
                && self@[i as int].amount == holding_amount(self@, bundle_id, asset_id@),
    {
        let mut i: usize = 0;
        while i < self.holdings.len()
            invariant
                self.wf(),
                i <= self.holdings.len(),
                forall|k: int| 0 <= k < i ==> !holding_matches(#[trigger] self.holdings@[k], bundle_id, asset_id@),
            decreases self.holdings.len() - i,
        {
            if self.holdings[i].bundle_id == bundle_id && self.holdings[i].asset_id == *asset_id {
                proof {
                    lemma_holding_at(self.holdings@, i as int);
                }
                return Some(i);
            }
            i += 1;
        }
        None
    }

    /// What the bundle holds of the asset.
    pub fn get_bundle_holding(&self, bundle_id: u64, asset_id: &AssetId) -> (amount: u64)
        requires
            self.wf(),
        ensures
            amount == holding_amount(self@, bundle_id, asset_id@),
    {
        match self.position(bundle_id, asset_id) {
            Some(i) => self.holdings[i].amount,
            None => 0,
        }
    }

    /// The holdings of one bundle.
    pub fn get_all_bundle_holdings(&self, bundle_id: u64) -> (out: Vec<BundleHolding>)
        ensures
            out@ == self@.filter(|h: BundleHolding| h.bundle_id == bundle_id),
    {
        let ghost wanted = |h: BundleHolding| h.bundle_id == bundle_id;
        let ghost all = self.holdings@;
        let mut out: Vec<BundleHolding> = Vec::new();
        let mut i: usize = 0;
        proof {
            reveal(Seq::filter);
            assert(all.take(0).filter(wanted) =~= Seq::<BundleHolding>::empty());
        }
        while i < self.holdings.len()
            invariant
                i <= self.holdings.len(),
                all == self.holdings@,
                wanted == (|h: BundleHolding| h.bundle_id == bundle_id),
                out@ == all.take(i as int).filter(wanted),
            decreases self.holdings.len() - i,
        {
            proof {
                assert(all.take(i + 1) =~= all.take(i as int).push(all[i as int]));
                all.take(i as int).lemma_filter_push(all[i as int], wanted);
            }
            if self.holdings[i].bundle_id == bundle_id {
                out.push(self.holdings[i].clone());
            }
            i += 1;
        }
        assert(all.take(i as int) =~= all);
        out
    }

    /// Adds `amount` to what the bundle holds of the asset, or takes it
    /// away. A holding that becomes empty is removed. Fails, and changes
    /// nothing, where the holding would exceed 64 bits or fall below zero.
    pub fn adjust_holding(&mut self, bundle_id: u64, asset_id: &AssetId, increase: bool, amount: u64, now: u64) -> (r:
        Result<(), Error>)
        requires
            old(self).wf(),
        ensures
            final(self).wf(),
            match adjusted_amount(holding_amount(old(self)@, bundle_id, asset_id@), increase, amount) {
                Ok(left) => r == Ok::<(), Error>(()) && holding_amount(final(self)@, bundle_id, asset_id@)
                    == left,
                Err(e) => r == Err::<(), Error>(e) && final(self)@ == old(self)@,
            },
            forall|other_bundle: u64, other_asset: Seq<char>|
                !(other_bundle == bundle_id && other_asset == asset_id@) ==> #[trigger] holding_amount(
                    final(self)@,
                    other_bundle,
                    other_asset,
                ) == holding_amount(old(self)@, other_bundle, other_asset),
    {
        let found = self.position(bundle_id, asset_id);
        let current: u64 = match found {
            Some(i) => self.holdings[i].amount,
            None => 0,
        };
        let left: u64 = if increase {
            match current.checked_add(amount) {
                Some(a) => a,
                None => {
                    return Err(Error::HoldingsOverflow);
                },
            }
        } else {
            if current < amount {
                return Err(Error::InsufficientHoldings);
            }
            current - amount
        };
        let ghost before = self.holdings@;
        match found {
            Some(i) => {
                if left == 0 {
                    let _ = self.holdings.remove(i);
                    proof {
                        lemma_removed_holding(before, self.holdings@, i as int);
                    }
                } else {
                    self.holdings[i].amount = left;
                    self.holdings[i].last_updated = now;
                    proof {
                        lemma_changed_holding(before, self.holdings@, i as int);
                    }
                }
            },
            None => {
                if left > 0 {
                    self.holdings.push(
                        BundleHolding { bundle_id, asset_id: asset_id.clone(), amount: left, last_updated: now },
                    );
                    proof {
                        assert(self.holdings@.drop_last() =~= before);
                        lemma_added_holding(before, self.holdings@);
                    }
                }
            },
        }
        Ok(())
    }

    /// Changes what the bundle holds of the asset by `amount_change`, as
    /// `adjust_holding` does.
    pub fn update_bundle_holdings(&mut self, bundle_id: u64, asset_id: &AssetId, amount_change: i64, now: u64) -> (r:
        Result<(), Error>)
        requires
            old(self).wf(),
        ensures
            final(self).wf(),
            match changed_amount(holding_amount(old(self)@, bundle_id, asset_id@), amount_change) {
                Ok(amount) => r == Ok::<(), Error>(()) && holding_amount(final(self)@, bundle_id, asset_id@)
                    == amount,
                Err(e) => r == Err::<(), Error>(e) && final(self)@ == old(self)@,
            },
            forall|other_bundle: u64, other_asset: Seq<char>|
                !(other_bundle == bundle_id && other_asset == asset_id@) ==> #[trigger] holding_amount(
                    final(self)@,
                    other_bundle,
                    other_asset,
                ) == holding_amount(old(self)@, other_bundle, other_asset),
    {
        if amount_change >= 0 {
            self.adjust_holding(bundle_id, asset_id, true, amount_change as u64, now)
        } else {
            let decrease: u64 = if amount_change == i64::MIN {
                0x8000_0000_0000_0000u64
            } else {
                (-amount_change) as u64
            };
            self.adjust_holding(bundle_id, asset_id, false, decrease, now)
        }
    }

    /// What a redemption of `nav_tokens_to_redeem` out of
    /// `total_nav_tokens` bundle tokens takes of each holding of the bundle.
    pub fn calculate_proportional_withdrawal(&self, bundle_id: u64, nav_tokens_to_redeem: u64, total_nav_tokens: u64) -> (r:
        Result<Vec<AssetWithdrawal>, Error>)
        ensures
            match r {
                Ok(out) => proportional_withdrawal(self@, bundle_id, nav_tokens_to_redeem, total_nav_tokens)
                    == Ok::<Seq<AssetWithdrawal>, Error>(out@),
                Err(e) => proportional_withdrawal(self@, bundle_id, nav_tokens_to_redeem, total_nav_tokens)
                    == Err::<Seq<AssetWithdrawal>, Error>(e),
            },
    {
        if total_nav_tokens == 0 {
            return Err(Error::NoTokensIssued);
        }
        if nav_tokens_to_redeem > total_nav_tokens {
            return Err(Error::RedeemExceedsSupply);
        }
        let mut out: Vec<AssetWithdrawal> = Vec::new();
        let mut i: usize = 0;
        while i < self.holdings.len()
            invariant
                i <= self.holdings.len(),
                0 < total_nav_tokens,
                nav_tokens_to_redeem <= total_nav_tokens,
                out@ == withdrawals_of(
                    self.holdings@.take(i as int),
                    bundle_id,
                    nav_tokens_to_redeem,
                    total_nav_tokens,
                ),
            decreases self.holdings.len() - i,
        {
            assert(self.holdings@.take(i + 1).drop_last() =~= self.holdings@.take(i as int));
            let h = &self.holdings[i];
            if h.bundle_id == bundle_id {
                let share = share_of(h.amount, nav_tokens_to_redeem, total_nav_tokens);
                if share > 0 {
                    out.push(
                        AssetWithdrawal {
                            asset_id: h.asset_id.clone(),
                            amount: share,
                            remaining_in_bundle: h.amount - share,
                        },
                    );
                }
            }
            i += 1;
        }
        assert(self.holdings@.take(i as int) =~= self.holdings@);
        Ok(out)
    }
}

/// Removing the holding at `i` leaves valid holdings, sets the amount of
/// its bundle and asset to zero, and keeps every other amount.
pub proof fn lemma_removed_holding(before: Seq<BundleHolding>, after: Seq<BundleHolding>, i: int)
    requires
        valid_holdings(before),
        0 <= i < before.len(),
        after == before.remove(i),
    ensures
        valid_holdings(after),
        holding_amount(after, before[i].bundle_id, before[i].asset_id@) == 0,
        forall|bundle: u64, asset: Seq<char>|
            !(bundle == before[i].bundle_id && asset == before[i].asset_id@) ==> #[trigger] holding_amount(
                after,
                bundle,
                asset,
            ) == holding_amount(before, bundle, asset),
{
    let index = |k: int|
        if k < i {
            k
        } else {
            k + 1
        };
    assert forall|k: int| 0 <= k < after.len() implies #[trigger] after[k] == before[index(k)] by {}
    assert forall|a: int, b: int| 0 <= a < b < after.len() implies !holding_matches(
        #[trigger] after[a],
        (#[trigger] after[b]).bundle_id,
        after[b].asset_id@,
    ) by {
        assert(!holding_matches(before[index(a)], before[index(b)].bundle_id, before[index(b)].asset_id@));
    }
    assert forall|k: int| 0 <= k < after.len() implies (#[trigger] after[k]).amount > 0 by {
        assert(before[index(k)].amount > 0);
    }
    if has_holding(after, before[i].bundle_id, before[i].asset_id@) {
        let k = choose|k: int|
            0 <= k < after.len() && holding_matches(#[trigger] after[k], before[i].bundle_id, before[i].asset_id@);
        if index(k) < i {
            assert(!holding_matches(before[index(k)], before[i].bundle_id, before[i].asset_id@));
        } else {
            assert(!holding_matches(before[i], before[index(k)].bundle_id, before[index(k)].asset_id@));
        }
    }
    assert forall|bundle: u64, asset: Seq<char>|
        !(bundle == before[i].bundle_id && asset == before[i].asset_id@) implies #[trigger] holding_amount(
        after,
        bundle,
        asset,
    ) == holding_amount(before, bundle, asset) by {
        if has_holding(before, bundle, asset) {
            let k = choose|k: int| 0 <= k < before.len() && holding_matches(#[trigger] before[k], bundle, asset);
            let m = if k < i {
                k
            } else {
                k - 1
            };
            assert(after[m] == before[k]);
            lemma_holding_at(after, m);
            lemma_holding_at(before, k);
        }
        if has_holding(after, bundle, asset) {
            let k = choose|k: int| 0 <= k < after.len() && holding_matches(#[trigger] after[k], bundle, asset);
            assert(after[k] == before[index(k)]);
            lemma_holding_at(after, k);
            lemma_holding_at(before, index(k));
        }
    }
}

/// Changing the amount of the holding at `i` to a positive amount leaves
/// valid holdings and keeps every other amount.
pub proof fn lemma_changed_holding(before: Seq<BundleHolding>, after: Seq<BundleHolding>, i: int)
    requires
        valid_holdings(before),
        0 <= i < before.len(),
        after.len() == before.len(),
        after[i].amount > 0,
        forall|k: int|
            0 <= k < before.len() ==> (#[trigger] after[k]).bundle_id == before[k].bundle_id && after[k].asset_id@
                == before[k].asset_id@,
        forall|k: int| 0 <= k < before.len() && k != i ==> (#[trigger] after[k]).amount == before[k].amount,
    ensures
        valid_holdings(after),
        holding_amount(after, before[i].bundle_id, before[i].asset_id@) == after[i].amount,
        forall|bundle: u64, asset: Seq<char>|
            !(bundle == before[i].bundle_id && asset == before[i].asset_id@) ==> #[trigger] holding_amount(
                after,
                bundle,
                asset,
            ) == holding_amount(before, bundle, asset),
{
    assert forall|a: int, b: int| 0 <= a < b < after.len() implies !holding_matches(
        #[trigger] after[a],
        (#[trigger] after[b]).bundle_id,
        after[b].asset_id@,
    ) by {
        assert(!holding_matches(before[a], before[b].bundle_id, before[b].asset_id@));
    }
    assert forall|k: int| 0 <= k < after.len() implies (#[trigger] after[k]).amount > 0 by {
        if k != i {
            assert(before[k].amount > 0);
        }
    }
    lemma_holding_at(after, i);
    assert forall|bundle: u64, asset: Seq<char>|
        !(bundle == before[i].bundle_id && asset == before[i].asset_id@) implies #[trigger] holding_amount(
        after,
        bundle,
        asset,
    ) == holding_amount(before, bundle, asset) by {
        if has_holding(before, bundle, asset) {
            let k = choose|k: int| 0 <= k < before.len() && holding_matches(#[trigger] before[k], bundle, asset);
            assert(holding_matches(after[k], bundle, asset));
            lemma_holding_at(after, k);
            lemma_holding_at(before, k);
        }
        if has_holding(after, bundle, asset) {
            let k = choose|k: int| 0 <= k < after.len() && holding_matches(#[trigger] after[k], bundle, asset);
            assert(holding_matches(before[k], bundle, asset));
            lemma_holding_at(after, k);
            lemma_holding_at(before, k);
        }
    }
}

/// Adding a holding of a bundle and an asset that had none leaves valid
/// holdings and keeps every other amount.
pub proof fn lemma_added_holding(before: Seq<BundleHolding>, after: Seq<BundleHolding>)
    requires
        valid_holdings(before),
        after.len() == before.len() + 1,
        after.drop_last() == before,
        after.last().amount > 0,
        !has_holding(before, after.last().bundle_id, after.last().asset_id@),
    ensures
        valid_holdings(after),
        holding_amount(after, after.last().bundle_id, after.last().asset_id@) == after.last().amount,
        forall|bundle: u64, asset: Seq<char>|
            !(bundle == after.last().bundle_id && asset == after.last().asset_id@) ==> #[trigger] holding_amount(
                after,
                bundle,
                asset,
            ) == holding_amount(before, bundle, asset),
{
    let n = before.len() as int;
    assert forall|k: int| 0 <= k < n implies #[trigger] after[k] == before[k] by {
        assert(after.drop_last()[k] == after[k]);
    }
    assert forall|a: int, b: int| 0 <= a < b < after.len() implies !holding_matches(
        #[trigger] after[a],
        (#[trigger] after[b]).bundle_id,
        after[b].asset_id@,
    ) by {
        if b == n {
            assert(holding_matches(before[a], after[n].bundle_id, after[n].asset_id@) ==> has_holding(
                before,
                after[n].bundle_id,
                after[n].asset_id@,
            ));
        } else {
            assert(!holding_matches(before[a], before[b].bundle_id, before[b].asset_id@));
        }
    }
    assert forall|k: int| 0 <= k < after.len() implies (#[trigger] after[k]).amount > 0 by {
        if k < n {
            assert(before[k].amount > 0);
        }
    }
    lemma_holding_at(after, n);
    assert forall|bundle: u64, asset: Seq<char>|
        !(bundle == after.last().bundle_id && asset == after.last().asset_id@) implies #[trigger] holding_amount(
        after,
        bundle,
        asset,
    ) == holding_amount(before, bundle, asset) by {
        if has_holding(before, bundle, asset) {
            let k = choose|k: int| 0 <= k < before.len() && holding_matches(#[trigger] before[k], bundle, asset);
            assert(after[k] == before[k]);
            lemma_holding_at(after, k);
            lemma_holding_at(before, k);
        }
        if has_holding(after, bundle, asset) {
            let k = choose|k: int| 0 <= k < after.len() && holding_matches(#[trigger] after[k], bundle, asset);
            assert(k < n);
            assert(after[k] == before[k]);
            lemma_holding_at(after, k);
            lemma_holding_at(before, k);
        }
    }
}

/// The holdings after a redemption of `redeem` out of `total` tokens of a
/// bundle: every holding of the bundle loses its share, and a holding that
/// becomes empty is gone.
pub open spec fn after_withdrawal(holdings: Seq<BundleHolding>, bundle_id: u64, redeem: u64, total: u64, now: u64) -> Seq<
    BundleHolding,
>
    decreases holdings.len(),
{
    if holdings.len() == 0 {
        Seq::<BundleHolding>::empty()
    } else {
        let rest = after_withdrawal(holdings.drop_last(), bundle_id, redeem, total, now);
        let last = holdings.last();
        let share = proportional_share(last.amount, redeem, total);
        if last.bundle_id != bundle_id || share == 0 {
            rest.push(last)
        } else if share < last.amount {
            rest.push(BundleHolding { amount: (last.amount - share) as u64, last_updated: now, ..last })
        } else {
            rest
        }
    }
}

/// What is left after a redemption is valid, and holds no bundle and asset
/// that was not held before.
pub proof fn lemma_after_withdrawal_valid(holdings: Seq<BundleHolding>, bundle_id: u64, redeem: u64, total: u64, now: u64)
    requires
        valid_holdings(holdings),
        0 < total,
        redeem <= total,
    ensures
        valid_holdings(after_withdrawal(holdings, bundle_id, redeem, total, now)),
        forall|i: int|
            0 <= i < after_withdrawal(holdings, bundle_id, redeem, total, now).len() ==> has_holding(
                holdings,
                (#[trigger] after_withdrawal(holdings, bundle_id, redeem, total, now)[i]).bundle_id,
                after_withdrawal(holdings, bundle_id, redeem, total, now)[i].asset_id@,
            ),
    decreases holdings.len(),
{
    if holdings.len() > 0 {
        let front = holdings.drop_last();
        let last = holdings.last();
        let n = front.len() as int;
        assert forall|k: int| 0 <= k < n implies #[trigger] front[k] == holdings[k] by {}
        assert(valid_holdings(front)) by {
            assert forall|a: int, b: int| 0 <= a < b < front.len() implies !holding_matches(
                #[trigger] front[a],
                (#[trigger] front[b]).bundle_id,
                front[b].asset_id@,
            ) by {
                assert(!holding_matches(holdings[a], holdings[b].bundle_id, holdings[b].asset_id@));
            }
            assert forall|k: int| 0 <= k < front.len() implies (#[trigger] front[k]).amount > 0 by {
                assert(holdings[k].amount > 0);
            }
        }
        lemma_after_withdrawal_valid(front, bundle_id, redeem, total, now);
        lemma_share_within_amount(last.amount, redeem, total);
        let rest = after_withdrawal(front, bundle_id, redeem, total, now);
        let all = after_withdrawal(holdings, bundle_id, redeem, total, now);
        assert(holdings[n].amount > 0);
        assert forall|i: int| 0 <= i < rest.len() implies has_holding(
            holdings,
            (#[trigger] rest[i]).bundle_id,
            rest[i].asset_id@,
        ) && !holding_matches(rest[i], last.bundle_id, last.asset_id@) by {
            assert(has_holding(front, rest[i].bundle_id, rest[i].asset_id@));
            let k = choose|k: int|
                0 <= k < front.len() && holding_matches(#[trigger] front[k], rest[i].bundle_id, rest[i].asset_id@);
            assert(holding_matches(holdings[k], rest[i].bundle_id, rest[i].asset_id@));
            assert(!holding_matches(holdings[k], holdings[n].bundle_id, holdings[n].asset_id@));
        }
        assert(holding_matches(holdings[n], last.bundle_id, last.asset_id@));
        if all.len() == rest.len() + 1 {
            let m = rest.len() as int;
            assert(all[m].bundle_id == last.bundle_id && all[m].asset_id@ == last.asset_id@ && all[m].amount > 0);
            assert forall|k: int| 0 <= k < m implies #[trigger] all[k] == rest[k] by {}
            assert forall|a: int, b: int| 0 <= a < b < all.len() implies !holding_matches(
                #[trigger] all[a],
                (#[trigger] all[b]).bundle_id,
                all[b].asset_id@,
            ) by {
                if b == m {
                    assert(!holding_matches(rest[a], last.bundle_id, last.asset_id@));
                } else {
                    assert(!holding_matches(rest[a], rest[b].bundle_id, rest[b].asset_id@));
                }
            }
            assert forall|k: int| 0 <= k < all.len() implies (#[trigger] all[k]).amount > 0 && has_holding(
                holdings,
                all[k].bundle_id,
                all[k].asset_id@,
            ) by {
                if k < m {
                    assert(rest[k].amount > 0);
                }
            }
        } else {
            assert(all == rest);
        }
    }
}

/// The USD value of an amount at a price with eight decimals; zero where
/// the product exceeds 64 bits.
pub open spec fn estimated_value(amount: u64, price: u64) -> u64 {
    if amount as nat * price as nat > u64::MAX {
        0
    } else {
        (amount as nat * price as nat / 100_000_000) as u64
    }
}

impl HoldingsTracker {
    /// Takes what a redemption of `nav_tokens_to_redeem` out of
    /// `total_nav_tokens` bundle tokens takes of the holdings of a bundle,
    /// and returns it. `user_balance` is the user's balance of the bundle's
    /// tokens as the ledger answered it; it must cover the redemption.
    /// Where the redemption is refused nothing changes.
    pub fn execute_proportional_withdrawal(
        &mut self,
        bundle_id: u64,
        user_balance: u64,
        nav_tokens_to_redeem: u64,
        total_nav_tokens: u64,
        now: u64,
    ) -> (r: Result<Vec<AssetWithdrawal>, Error>)
        requires
            old(self).wf(),
        ensures
            final(self).wf(),
            match r {
                Ok(out) => {
                    &&& user_balance >= nav_tokens_to_redeem
                    &&& proportional_withdrawal(old(self)@, bundle_id, nav_tokens_to_redeem, total_nav_tokens)
                        == Ok::<Seq<AssetWithdrawal>, Error>(out@)
                    &&& final(self)@ == after_withdrawal(
                        old(self)@,
                        bundle_id,
                        nav_tokens_to_redeem,
                        total_nav_tokens,
                        now,
                    )
                },
                Err(e) => {
                    &&& final(self)@ == old(self)@
                    &&& if user_balance < nav_tokens_to_redeem {
                        e == (Error::InsufficientTokenBalance {
                            bundle_id,
                            required: nav_tokens_to_redeem,
                            available: user_balance,
                        })
                    } else {
                        proportional_withdrawal(old(self)@, bundle_id, nav_tokens_to_redeem, total_nav_tokens)
                            == Err::<Seq<AssetWithdrawal>, Error>(e)
                    }
                },
            },
    {
        if user_balance < nav_tokens_to_redeem {
            return Err(
                Error::InsufficientTokenBalance {
                    bundle_id,
                    required: nav_tokens_to_redeem,
                    available: user_balance,
                },
            );
        }
        let out = match self.calculate_proportional_withdrawal(bundle_id, nav_tokens_to_redeem, total_nav_tokens) {
            Ok(out) => out,
            Err(e) => {
                return Err(e);
            },
        };
        let ghost before = self.holdings@;
        let mut kept: Vec<BundleHolding> = Vec::new();
        let mut i: usize = 0;
        while i < self.holdings.len()
            invariant
                i <= self.holdings.len(),
                self.holdings@ == before,
                0 < total_nav_tokens,
                nav_tokens_to_redeem <= total_nav_tokens,
                kept@ == after_withdrawal(
                    before.take(i as int),
                    bundle_id,
                    nav_tokens_to_redeem,
                    total_nav_tokens,
                    now,
                ),
            decreases self.holdings.len() - i,
        {
            assert(before.take(i + 1).drop_last() =~= before.take(i as int));
            let h = &self.holdings[i];
            let share = if h.bundle_id == bundle_id {
                share_of(h.amount, nav_tokens_to_redeem, total_nav_tokens)
            } else {
                0
            };
            if h.bundle_id != bundle_id || share == 0 {
                kept.push(h.clone());
            } else if share < h.amount {
                kept.push(
                    BundleHolding {
                        bundle_id: h.bundle_id,
                        asset_id: h.asset_id.clone(),
                        amount: h.amount - share,
                        last_updated: now,
                    },
                );
            }
            i += 1;
        }
        proof {
            assert(before.take(i as int) =~= before);
            lemma_after_withdrawal_valid(before, bundle_id, nav_tokens_to_redeem, total_nav_tokens, now);
        }
        self.holdings = kept;
        Ok(out)
    }
}

/// The USD value of each withdrawal at the price that was found for its
/// asset, and the sum of the values, capped at 64 bits. A withdrawal
/// without a price is left out.
pub fn simulate_proportional_withdrawal(withdrawals: &Vec<AssetWithdrawal>, prices: &Vec<Option<u64>>) -> (r: (
    Vec<WithdrawalAssetBreakdown>,
    u64,
))
    requires
        prices@.len() == withdrawals@.len(),
    ensures
        r.0@ == breakdown_of(withdrawals@, prices@),
        r.1 == crate::nav_calculator::saturated(breakdown_total(withdrawals@, prices@)),
{
    let mut breakdown: Vec<WithdrawalAssetBreakdown> = Vec::new();
    let mut total: u64 = 0;
    let mut i: usize = 0;
    assert(withdrawals@.take(0).len() == 0);
    while i < withdrawals.len()
        invariant
            i <= withdrawals.len(),
            prices@.len() == withdrawals@.len(),
            breakdown@ == breakdown_of(withdrawals@.take(i as int), prices@.take(i as int)),
            total == crate::nav_calculator::saturated(
                breakdown_total(withdrawals@.take(i as int), prices@.take(i as int)),
            ),
        decreases withdrawals.len() - i,
    {
        assert(withdrawals@.take(i + 1).drop_last() =~= withdrawals@.take(i as int));
        assert(prices@.take(i + 1).drop_last() =~= prices@.take(i as int));
        match prices[i] {
            Some(price) => {
                let w = &withdrawals[i];
                let value: u64 = match w.amount.checked_mul(price) {
                    Some(v) => v / 100_000_000,
                    None => 0,
                };
                total = total.saturating_add(value);
                breakdown.push(
                    WithdrawalAssetBreakdown {
                        asset_id: w.asset_id.clone(),
                        amount: w.amount,
                        estimated_usd_value: value,
                        price_per_unit: price,
                    },
                );
            },
            None => {},
        }
        i += 1;
    }
    assert(withdrawals@.take(i as int) =~= withdrawals@);
    assert(prices@.take(i as int) =~= prices@);
    (breakdown, total)
}

/// The priced withdrawals, in their order.
pub open spec fn breakdown_of(withdrawals: Seq<AssetWithdrawal>, prices: Seq<Option<u64>>) -> Seq<
    WithdrawalAssetBreakdown,
>
    decreases withdrawals.len(),
{
    if withdrawals.len() == 0 || prices.len() != withdrawals.len() {
        Seq::<WithdrawalAssetBreakdown>::empty()
    } else {
        let rest = breakdown_of(withdrawals.drop_last(), prices.drop_last());
        match prices.last() {
            Some(price) => rest.push(
                WithdrawalAssetBreakdown {
                    asset_id: withdrawals.last().asset_id,
                    amount: withdrawals.last().amount,
                    estimated_usd_value: estimated_value(withdrawals.last().amount, price),
                    price_per_unit: price,
                },
            ),
            None => rest,
        }
    }
}

/// The sum of the values of the priced withdrawals.
pub open spec fn breakdown_total(withdrawals: Seq<AssetWithdrawal>, prices: Seq<Option<u64>>) -> nat
    decreases withdrawals.len(),
{
    if withdrawals.len() == 0 || prices.len() != withdrawals.len() {
        0
    } else {
        breakdown_total(withdrawals.drop_last(), prices.drop_last()) + match prices.last() {
            Some(price) => estimated_value(withdrawals.last().amount, price) as nat,
            None => 0,
        }
    }
}

impl HoldingsTracker {
    /// All holdings, in the order in which they came to be.
    pub fn all_holdings(&self) -> (out: Vec<BundleHolding>)
        ensures
            out@ == self@,
    {
        let mut out: Vec<BundleHolding> = Vec::new();
        let mut i: usize = 0;
        while i < self.holdings.len()
            invariant
                i <= self.holdings.len(),
                out@ == self.holdings@.take(i as int),
            decreases self.holdings.len() - i,
        {
            out.push(self.holdings[i].clone());
            i += 1;
            assert(out@ =~= self.holdings@.take(i as int));
        }
        assert(self.holdings@.take(i as int) =~= self.holdings@);
        out
    }
}

} // verus!
