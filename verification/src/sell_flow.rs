//! The settlement of a redemption, step by step.
//!
//! The resolver confirms its payment; the engine then pulls the settlement
//! amount from the resolver into escrow, transfers each constituent asset
//! from escrow to the resolver, burns the user's bundle tokens, pays the
//! platform fee to the treasury and the rest to the user, releases the
//! user's lock and marks the transaction `Completed`. Each ledger call is
//! made by the caller: `next_request` says which, and `advance_sell` takes
//! the answer.
//!
//! A step that fails changes nothing and ends the settlement; what earlier
//! steps did on the ledgers stays done.

use vstd::prelude::*;
use crate::asset_registry::AssetRegistry;
use crate::bundle_manager::{bundle_of, fee_bps_of, has_bundle, BundleStore};
use crate::error::Error;
use crate::holdings_tracker::{adjusted_amount, holding_amount, HoldingsTracker};
use crate::ledger::{memo, memo_bytes, reply_value, LedgerCall, LedgerRequest};
use crate::memory::GlobalState;
use crate::principal::PrincipalId;
use crate::quote_manager::{assignment_of, has_assignment, AssignmentStore};
use crate::settlement::{build_legs, first_positive_leg, legs_of, next_positive_leg, settlement_under_way, AssetLeg};
use crate::transaction_manager::{
    request_lookup,
    transaction_of,
    unlock_result,
    with_transition,
    without_lock,
    TransactionManager,
};
use crate::types::{
    AssetInfo,
    BundleConfig,
    BundleHolding,
    LockedFundType,
    LockedFunds,
    OperationType,
    QuoteAssignment,
    TokenLocation,
    Transaction,
    TransactionStatus,
};

verus! {

/// Where the settlement of a redemption stands: the call that is to be
/// made next.
#[derive(Clone, Copy, Debug, PartialEq, Eq, Structural)]
pub enum SellStage {
    /// Ask what the resolver lets the engine pull of settlement currency.
    CheckAllowance,
    /// Pull the settlement amount from the resolver into escrow.
    PullPayment,
    /// Transfer the asset of a leg from escrow to the resolver.
    TransferAsset(usize),
    /// Burn the user's bundle tokens.
    Burn,
    /// Pay the platform fee to the treasury.
    PayFee,
    /// Pay the rest of the settlement amount to the user.
    PayUser,
    /// Nothing is left to do.
    Done,
}

/// The settlement of one redemption.
#[derive(Debug)]
pub struct SellSettlement {
    pub transaction_id: u64,
    pub bundle_id: u64,
    pub user: PrincipalId,
    pub resolver: PrincipalId,
    pub escrow: PrincipalId,
    pub nav_tokens: u64,
    pub ckusdc_amount: u64,
    pub fees: u64,
    pub fee_bps: u64,
    pub treasury: Option<PrincipalId>,
    pub bundle_token: TokenLocation,
    pub legs: Vec<AssetLeg>,
    pub stage: SellStage,
}

/// The first leg at or after `from` that takes more than the bundle holds.
pub open spec fn first_uncovered_leg(holdings: Seq<BundleHolding>, bundle_id: u64, legs: Seq<AssetLeg>, from: int) -> Option<
    int,
>
    decreases legs.len() - from,
{
    if from < 0 || from >= legs.len() {
        None
    } else if legs[from].amount > holding_amount(holdings, bundle_id, legs[from].asset_id@) {
        Some(from)
    } else {
        first_uncovered_leg(holdings, bundle_id, legs, from + 1)
    }
}

impl SellSettlement {
    /// The fee is within the settlement amount, and the stage names a leg
    /// that exists and moves a positive amount.
    pub open spec fn wf(&self) -> bool {
        &&& self.fees <= self.ckusdc_amount
        &&& match self.stage {
            SellStage::TransferAsset(i) => i < self.legs@.len() && self.legs@[i as int].amount > 0,
            SellStage::PayFee => self.treasury is Some && self.fees > 0,
            _ => true,
        }
    }

    /// The fee that is paid to the treasury: none where there is no
    /// treasury.
    pub open spec fn fee_paid(&self) -> u64 {
        if self.fees > 0 && self.treasury is Some {
            self.fees
        } else {
            0
        }
    }

    /// The call to make at the current stage.
    pub open spec fn call(&self) -> Option<LedgerCall> {
        match self.stage {
            SellStage::CheckAllowance => Some(
                LedgerCall::SettlementAllowance { owner: self.resolver, spender: self.escrow },
            ),
            SellStage::PullPayment => Some(
                LedgerCall::SettlementTransferFrom {
                    from: self.resolver,
                    to: self.escrow,
                    amount: self.ckusdc_amount,
                },
            ),
            SellStage::TransferAsset(i) => Some(
                LedgerCall::TokenTransfer {
                    token: self.legs@[i as int].token,
                    to: self.resolver,
                    amount: self.legs@[i as int].amount,
                },
            ),
            SellStage::Burn => Some(
                LedgerCall::TokenBurn { token: self.bundle_token, from: self.user, amount: self.nav_tokens },
            ),
            SellStage::PayFee => Some(
                LedgerCall::SettlementTransfer { to: self.treasury->Some_0, amount: self.fees },
            ),
            SellStage::PayUser => Some(
                LedgerCall::SettlementTransfer {
                    to: self.user,
                    amount: (self.ckusdc_amount - self.fee_paid()) as u64,
                },
            ),
            SellStage::Done => None,
        }
    }

    /// The memo of the call at the current stage.
    pub open spec fn memo_text(&self) -> Seq<u8> {
        match self.stage {
            SellStage::CheckAllowance => memo_bytes(
                "Sell tx "@,
                self.transaction_id,
                " - resolver allowance"@,
                None,
                ""@,
                None,
                ""@,
            ),
            SellStage::PullPayment => memo_bytes(
                "Sell tx "@,
                self.transaction_id,
                " - resolver payment"@,
                None,
                ""@,
                None,
                ""@,
            ),
            SellStage::TransferAsset(i) => memo_bytes(
                "Sell tx "@,
                self.transaction_id,
                " - transfer "@,
                Some(self.legs@[i as int].amount),
                " "@,
                Some(self.legs@[i as int].asset_id@),
                ""@,
            ),
            SellStage::Burn => memo_bytes(
                "Sell tx "@,
                self.transaction_id,
                " - burn "@,
                Some(self.nav_tokens),
                " bundle tokens"@,
                None,
                ""@,
            ),
            SellStage::PayFee => memo_bytes(
                "Platform fee for sell tx "@,
                self.transaction_id,
                " ("@,
                Some(self.fee_bps),
                "bps)"@,
                None,
                ""@,
            ),
            SellStage::PayUser => memo_bytes(
                "Sell tx "@,
                self.transaction_id,
                " - user proceeds"@,
                None,
                ""@,
                None,
                ""@,
            ),
            SellStage::Done => Seq::<u8>::empty(),
        }
    }

    /// The stage that follows the current one when its call has succeeded.
    pub open spec fn following_stage(&self) -> SellStage {
        match self.stage {
            SellStage::CheckAllowance => SellStage::PullPayment,
            SellStage::PullPayment => match first_positive_leg(self.legs@, 0) {
                Some(j) => SellStage::TransferAsset(j as usize),
                None => SellStage::Burn,
            },
            SellStage::TransferAsset(i) => match first_positive_leg(self.legs@, i + 1) {
                Some(j) => SellStage::TransferAsset(j as usize),
                None => SellStage::Burn,
            },
            SellStage::Burn => if self.fees > 0 && self.treasury is Some {
                SellStage::PayFee
            } else {
                SellStage::PayUser
            },
            SellStage::PayFee => SellStage::PayUser,
            SellStage::PayUser => SellStage::Done,
            SellStage::Done => SellStage::Done,
        }
    }

    /// Whether `next` is this settlement at another stage.
    pub open spec fn moved_to(&self, next: SellSettlement, stage: SellStage) -> bool {
        &&& next.transaction_id == self.transaction_id
        &&& next.bundle_id == self.bundle_id
        &&& next.user == self.user
        &&& next.resolver == self.resolver
        &&& next.escrow == self.escrow
        &&& next.nav_tokens == self.nav_tokens
        &&& next.ckusdc_amount == self.ckusdc_amount
        &&& next.fees == self.fees
        &&& next.fee_bps == self.fee_bps
        &&& next.treasury == self.treasury
        &&& next.bundle_token == self.bundle_token
        &&& next.legs@ == self.legs@
        &&& next.stage == stage
    }

    /// The call to make next with its memo, or `None` when the settlement
    /// is done.
    pub fn next_request(&self) -> (r: Option<LedgerRequest>)
        requires
            self.wf(),
        ensures
            match r {
                Some(request) => self.call() == Some(request.call) && request.memo@ == self.memo_text(),
                None => self.call() is None,
            },
    {
        let id = self.transaction_id;
        match self.stage {
            SellStage::CheckAllowance => Some(
                LedgerRequest {
                    call: LedgerCall::SettlementAllowance { owner: self.resolver, spender: self.escrow },
                    memo: memo("Sell tx ", id, " - resolver allowance", None, "", None, ""),
                },
            ),
            SellStage::PullPayment => Some(
                LedgerRequest {
                    call: LedgerCall::SettlementTransferFrom {
                        from: self.resolver,
                        to: self.escrow,
                        amount: self.ckusdc_amount,
                    },
                    memo: memo("Sell tx ", id, " - resolver payment", None, "", None, ""),
                },
            ),
            SellStage::TransferAsset(i) => Some(
                LedgerRequest {
                    call: LedgerCall::TokenTransfer {
                        token: self.legs[i].token,
                        to: self.resolver,
                        amount: self.legs[i].amount,
                    },
                    memo: memo(
                        "Sell tx ",
                        id,
                        " - transfer ",
                        Some(self.legs[i].amount),
                        " ",
                        Some(&self.legs[i].asset_id),
                        "",
                    ),
                },
            ),
            SellStage::Burn => Some(
                LedgerRequest {
                    call: LedgerCall::TokenBurn {
                        token: self.bundle_token,
                        from: self.user,
                        amount: self.nav_tokens,
                    },
                    memo: memo("Sell tx ", id, " - burn ", Some(self.nav_tokens), " bundle tokens", None, ""),
                },
            ),
            SellStage::PayFee => match self.treasury {
                Some(treasury) => Some(
                    LedgerRequest {
                        call: LedgerCall::SettlementTransfer { to: treasury, amount: self.fees },
                        memo: memo("Platform fee for sell tx ", id, " (", Some(self.fee_bps), "bps)", None, ""),
                    },
                ),
                None => None,
            },
            SellStage::PayUser => {
                let paid: u64 = if self.fees > 0 && self.treasury.is_some() {
                    self.fees
                } else {
                    0
                };
                Some(
                    LedgerRequest {
                        call: LedgerCall::SettlementTransfer { to: self.user, amount: self.ckusdc_amount - paid },
                        memo: memo("Sell tx ", id, " - user proceeds", None, "", None, ""),
                    },
                )
            },
            SellStage::Done => None,
        }
    }
}

/// Whether a payment can be confirmed, and if not, why. The checks are
/// made in this order: an assignment is stored for the request; a
/// transaction was made for it; the caller is the assigned resolver; the
/// transaction is a redemption; it waits for the resolver; its bundle is
/// known; every asset amount has a leg; the bundle holds what each leg
/// takes; the fee is within the amount.
pub open spec fn payment_check(
    assignments: Seq<QuoteAssignment>,
    txs: Seq<Transaction>,
    bundles: Seq<BundleConfig>,
    assets: Seq<AssetInfo>,
    holdings: Seq<BundleHolding>,
    request_id: u64,
    caller: PrincipalId,
) -> Result<(), Error> {
    let assignment = assignment_of(assignments, request_id);
    if !has_assignment(assignments, request_id) {
        Err(Error::AssignmentNotFound)
    } else {
        match request_lookup(txs, request_id) {
            Err(e) => Err(e),
            Ok(tx) => if assignment.resolver != caller {
                Err(Error::NotAssignedResolver)
            } else if tx.operation != OperationType::Sell {
                Err(Error::NotSellOperation)
            } else if tx.status != TransactionStatus::FundsLocked && tx.status
                != TransactionStatus::WaitingForResolver {
                Err(Error::WrongStatus)
            } else if !has_bundle(bundles, tx.bundle_id) {
                Err(Error::BundleNotFound { bundle_id: tx.bundle_id })
            } else {
                match legs_of(assets, None, assignment.asset_amounts@) {
                    Err(e) => Err(e),
                    Ok(legs) => if first_uncovered_leg(holdings, tx.bundle_id, legs, 0) is Some {
                        Err(Error::InsufficientHoldings)
                    } else if assignment.fees > assignment.ckusdc_amount {
                        Err(Error::FeeExceedsAmount)
                    } else {
                        Ok(())
                    },
                }
            },
        }
    }
}

/// Whether `settlement` is the one that a confirmed payment opens.
pub open spec fn opens_sell(
    settlement: SellSettlement,
    config: GlobalState,
    assignments: Seq<QuoteAssignment>,
    txs: Seq<Transaction>,
    bundles: Seq<BundleConfig>,
    assets: Seq<AssetInfo>,
    escrow: PrincipalId,
    request_id: u64,
) -> bool {
    let assignment = assignment_of(assignments, request_id);
    let tx = request_lookup(txs, request_id)->Ok_0;
    let bundle = bundle_of(bundles, tx.bundle_id);
    &&& settlement.transaction_id == tx.id
    &&& settlement.bundle_id == tx.bundle_id
    &&& settlement.user == tx.user
    &&& settlement.resolver == assignment.resolver
    &&& settlement.escrow == escrow
    &&& settlement.nav_tokens == assignment.nav_tokens
    &&& settlement.ckusdc_amount == assignment.ckusdc_amount
    &&& settlement.fees == assignment.fees
    &&& settlement.fee_bps == fee_bps_of(bundle)
    &&& settlement.treasury == config.platform_treasury
    &&& settlement.bundle_token == bundle.token_location
    &&& legs_of(assets, None, assignment.asset_amounts@) == Ok::<Seq<AssetLeg>, Error>(settlement.legs@)
    &&& settlement.stage == SellStage::CheckAllowance
}

fn uncovered_leg(holdings: &HoldingsTracker, bundle_id: u64, legs: &Vec<AssetLeg>) -> (r: bool)
    requires
        holdings.wf(),
    ensures
        r == (first_uncovered_leg(holdings@, bundle_id, legs@, 0) is Some),
{
    let mut i: usize = 0;
    while i < legs.len()
        invariant
            holdings.wf(),
            first_uncovered_leg(holdings@, bundle_id, legs@, 0) == first_uncovered_leg(
                holdings@,
                bundle_id,
                legs@,
                i as int,
            ),
        decreases legs.len() - i,
    {
        if legs[i].amount > holdings.get_bundle_holding(bundle_id, &legs[i].asset_id) {
            return true;
        }
        i += 1;
    }
    false
}

/// Opens the settlement of a redemption on the resolver's confirmation,
/// and sets the transaction to `InProgress`. Where the confirmation is
/// refused nothing changes.
pub fn confirm_resolver_payment_and_complete_sell(
    config: &GlobalState,
    bundles: &BundleStore,
    registry: &AssetRegistry,
    assignments: &AssignmentStore,
    holdings: &HoldingsTracker,
    manager: &mut TransactionManager,
    escrow: PrincipalId,
    request_id: u64,
    caller: PrincipalId,
    now: u64,
) -> (r: Result<SellSettlement, Error>)
    requires
        bundles.wf(),
        registry.wf(),
        assignments.wf(),
        holdings.wf(),
        old(manager).wf(),
    ensures
        final(manager).wf(),
        final(manager).locks() == old(manager).locks(),
        final(manager).counter() == old(manager).counter(),
        match payment_check(
            assignments@,
            old(manager).transactions(),
            bundles@,
            registry@,
            holdings@,
            request_id,
            caller,
        ) {
            Err(e) => r == Err::<SellSettlement, Error>(e) && final(manager).transactions() == old(
                manager,
            ).transactions(),
            Ok(()) => {
                &&& r is Ok
                &&& r->Ok_0.wf()
                &&& opens_sell(
                    r->Ok_0,
                    *config,
                    assignments@,
                    old(manager).transactions(),
                    bundles@,
                    registry@,
                    escrow,
                    request_id,
                )
                &&& final(manager).transactions() == with_transition(
                    old(manager).transactions(),
                    r->Ok_0.transaction_id,
                    TransactionStatus::InProgress,
                    now,
                )
            },
        },
{
    let assignment = match assignments.get_assignment(request_id) {
        Ok(a) => a,
        Err(e) => {
            return Err(e);
        },
    };
    let tx = match manager.get_transaction_by_request(request_id) {
        Ok(tx) => tx,
        Err(e) => {
            return Err(e);
        },
    };
    if !assignment.resolver.same_as(&caller) {
        return Err(Error::NotAssignedResolver);
    }
    match tx.operation {
        OperationType::Sell => {},
        OperationType::Buy => {
            return Err(Error::NotSellOperation);
        },
    }
    if tx.status != TransactionStatus::FundsLocked && tx.status != TransactionStatus::WaitingForResolver {
        return Err(Error::WrongStatus);
    }
    let bundle = match bundles.get_bundle(tx.bundle_id) {
        Ok(b) => b,
        Err(e) => {
            return Err(e);
        },
    };
    let legs = match build_legs(registry, None, &assignment.asset_amounts) {
        Ok(legs) => legs,
        Err(e) => {
            return Err(e);
        },
    };
    if uncovered_leg(holdings, tx.bundle_id, &legs) {
        return Err(Error::InsufficientHoldings);
    }
    if assignment.fees > assignment.ckusdc_amount {
        return Err(Error::FeeExceedsAmount);
    }
    let moved = manager.update_transaction_status(tx.id, TransactionStatus::InProgress, now);
    assert(moved is Ok);
    Ok(
        SellSettlement {
            transaction_id: tx.id,
            bundle_id: tx.bundle_id,
            user: tx.user,
            resolver: assignment.resolver,
            escrow,
            nav_tokens: assignment.nav_tokens,
            ckusdc_amount: assignment.ckusdc_amount,
            fees: assignment.fees,
            fee_bps: match bundle.platform_fee_bps {
                Some(bps) => bps,
                None => crate::memory::DEFAULT_PLATFORM_FEE_BPS,
            },
            treasury: config.platform_treasury,
            bundle_token: bundle.token_location,
            legs,
            stage: SellStage::CheckAllowance,
        },
    )
}

/// Whether a step of a redemption succeeds, given what the ledger
/// answered, and if not, why. A failed call fails the step. The
/// transaction must still be under way. The allowance must cover the
/// settlement amount; a transferred amount must be in the bundle's
/// holding; and after the payment the user's lock must be there to
/// release.
pub open spec fn sell_step_check(
    settlement: SellSettlement,
    txs: Seq<Transaction>,
    locks: Seq<LockedFunds>,
    holdings: Seq<BundleHolding>,
    reply: Result<u64, Error>,
) -> Result<(), Error> {
    match reply {
        Err(e) => Err(e),
        Ok(answer) => if !settlement_under_way(txs, settlement.transaction_id) {
            Err(Error::WrongStatus)
        } else {
            match settlement.stage {
                SellStage::CheckAllowance => if answer < settlement.ckusdc_amount {
                    Err(Error::InsufficientAllowance { available: answer, required: settlement.ckusdc_amount })
                } else {
                    Ok(())
                },
                SellStage::TransferAsset(i) => match adjusted_amount(
                    holding_amount(holdings, settlement.bundle_id, settlement.legs@[i as int].asset_id@),
                    false,
                    settlement.legs@[i as int].amount,
                ) {
                    Err(e) => Err(e),
                    Ok(_) => Ok(()),
                },
                SellStage::PayUser => match unlock_result(
                    txs,
                    locks,
                    settlement.transaction_id,
                    LockedFundType::NAVTokens { bundle_id: settlement.bundle_id },
                ) {
                    Err(e) => Err(e),
                    Ok(_) => Ok(()),
                },
                SellStage::Done => Err(Error::WrongStatus),
                _ => Ok(()),
            }
        },
    }
}

/// The transactions after a successful step of a redemption: the transfer
/// of the last leg sets the transaction to `AssetsTransferred`, the
/// payment of the user to `Completed`.
pub open spec fn transactions_after_sell_step(settlement: SellSettlement, txs: Seq<Transaction>, now: u64) -> Seq<
    Transaction,
> {
    match settlement.stage {
        SellStage::TransferAsset(_) => if settlement.following_stage() == SellStage::Burn {
            with_transition(txs, settlement.transaction_id, TransactionStatus::AssetsTransferred, now)
        } else {
            txs
        },
        SellStage::PayUser => with_transition(txs, settlement.transaction_id, TransactionStatus::Completed, now),
        _ => txs,
    }
}

/// The locks after a successful step of a redemption: the payment of the
/// user releases the user's lock.
pub open spec fn locks_after_sell_step(settlement: SellSettlement, txs: Seq<Transaction>, locks: Seq<LockedFunds>) -> Seq<
    LockedFunds,
> {
    match settlement.stage {
        SellStage::PayUser => without_lock(
            locks,
            transaction_of(txs, settlement.transaction_id).user,
            settlement.transaction_id,
            LockedFundType::NAVTokens { bundle_id: settlement.bundle_id },
        ),
        _ => locks,
    }
}

/// Takes the ledger's answer to the call of the current stage and moves
/// the settlement to the next stage. A transferred asset is taken off the
/// bundle's holdings. Where the step fails nothing changes.
pub fn advance_sell(
    holdings: &mut HoldingsTracker,
    manager: &mut TransactionManager,
    settlement: SellSettlement,
    reply: Result<u64, String>,
    now: u64,
) -> (r: Result<SellSettlement, Error>)
    requires
        old(holdings).wf(),
        old(manager).wf(),
        settlement.wf(),
    ensures
        final(holdings).wf(),
        final(manager).wf(),
        final(manager).counter() == old(manager).counter(),
        match sell_step_check(
            settlement,
            old(manager).transactions(),
            old(manager).locks(),
            old(holdings)@,
            reply_value(reply),
        ) {
            Err(e) => {
                &&& r == Err::<SellSettlement, Error>(e)
                &&& final(holdings)@ == old(holdings)@
                &&& final(manager).transactions() == old(manager).transactions()
                &&& final(manager).locks() == old(manager).locks()
            },
            Ok(()) => {
                &&& r is Ok
                &&& r->Ok_0.wf()
                &&& settlement.moved_to(r->Ok_0, settlement.following_stage())
                &&& final(manager).transactions() == transactions_after_sell_step(
                    settlement,
                    old(manager).transactions(),
                    now,
                )
                &&& final(manager).locks() == locks_after_sell_step(
                    settlement,
                    old(manager).transactions(),
                    old(manager).locks(),
                )
                &&& match settlement.stage {
                    SellStage::TransferAsset(i) => {
                        &&& holding_amount(
                            final(holdings)@,
                            settlement.bundle_id,
                            settlement.legs@[i as int].asset_id@,
                        ) == holding_amount(
                            old(holdings)@,
                            settlement.bundle_id,
                            settlement.legs@[i as int].asset_id@,
                        ) - settlement.legs@[i as int].amount
                        &&& forall|bundle: u64, asset: Seq<char>|
                            !(bundle == settlement.bundle_id && asset == settlement.legs@[i as int].asset_id@)
                                ==> #[trigger] holding_amount(final(holdings)@, bundle, asset) == holding_amount(
                                old(holdings)@,
                                bundle,
                                asset,
                            )
                    },
                    _ => final(holdings)@ == old(holdings)@,
                }
            },
        },
{
    let answer = match reply {
        Ok(answer) => answer,
        Err(reason) => {
            return Err(Error::LedgerCallFailed { reason });
        },
    };
    match manager.get_transaction(settlement.transaction_id) {
        Ok(tx) => {
            if tx.status != TransactionStatus::InProgress && tx.status != TransactionStatus::AssetsTransferred {
                return Err(Error::WrongStatus);
            }
        },
        Err(_) => {
            return Err(Error::WrongStatus);
        },
    }
    let mut settlement = settlement;
    match settlement.stage {
        SellStage::CheckAllowance => {
            if answer < settlement.ckusdc_amount {
                return Err(
                    Error::InsufficientAllowance { available: answer, required: settlement.ckusdc_amount },
                );
            }
            settlement.stage = SellStage::PullPayment;
            Ok(settlement)
        },
        SellStage::PullPayment => {
            settlement.stage = match next_positive_leg(&settlement.legs, 0) {
                Some(j) => SellStage::TransferAsset(j),
                None => SellStage::Burn,
            };
            Ok(settlement)
        },
        SellStage::TransferAsset(i) => {
            match holdings.adjust_holding(
                settlement.bundle_id,
                &settlement.legs[i].asset_id,
                false,
                settlement.legs[i].amount,
                now,
            ) {
                Ok(()) => {},
                Err(e) => {
                    return Err(e);
                },
            }
            let legs_len = settlement.legs.len();
            assert(i < legs_len);
            match next_positive_leg(&settlement.legs, i + 1) {
                Some(j) => {
                    settlement.stage = SellStage::TransferAsset(j);
                },
                None => {
                    let moved = manager.update_transaction_status(
                        settlement.transaction_id,
                        TransactionStatus::AssetsTransferred,
                        now,
                    );
                    assert(moved is Ok);
                    settlement.stage = SellStage::Burn;
                },
            }
            Ok(settlement)
        },
        SellStage::Burn => {
            settlement.stage = if settlement.fees > 0 && settlement.treasury.is_some() {
                SellStage::PayFee
            } else {
                SellStage::PayUser
            };
            Ok(settlement)
        },
        SellStage::PayFee => {
            settlement.stage = SellStage::PayUser;
            Ok(settlement)
        },
        SellStage::PayUser => {
            match manager.unlock_user_funds(
                settlement.transaction_id,
                &LockedFundType::NAVTokens { bundle_id: settlement.bundle_id },
            ) {
                Ok(_) => {},
                Err(e) => {
                    return Err(e);
                },
            }
            let moved = manager.update_transaction_status(
                settlement.transaction_id,
                TransactionStatus::Completed,
                now,
            );
            assert(moved is Ok);
            settlement.stage = SellStage::Done;
            Ok(settlement)
        },
        SellStage::Done => Err(Error::WrongStatus),
    }
}

/// In a redemption, what the user is paid and the fee that is paid to the
/// treasury add up to the settlement amount that is pulled from the
/// resolver, and the bundle tokens that are burned are those of the quote,
/// of the user.
pub proof fn lemma_sell_conserves_value(settlement: SellSettlement)
    requires
        settlement.wf(),
    ensures
        settlement.stage == SellStage::PayUser ==> settlement.call() == Some(
            LedgerCall::SettlementTransfer {
                to: settlement.user,
                amount: (settlement.ckusdc_amount - settlement.fee_paid()) as u64,
            },
        ) && (settlement.ckusdc_amount - settlement.fee_paid()) + settlement.fee_paid()
            == settlement.ckusdc_amount,
        settlement.stage == SellStage::PullPayment ==> settlement.call() == Some(
            LedgerCall::SettlementTransferFrom {
                from: settlement.resolver,
                to: settlement.escrow,
                amount: settlement.ckusdc_amount,
            },
        ),
        settlement.stage == SellStage::Burn ==> settlement.call() == Some(
            LedgerCall::TokenBurn {
                token: settlement.bundle_token,
                from: settlement.user,
                amount: settlement.nav_tokens,
            },
        ),
{
}

/// The place of a stage in the order of a redemption with `legs` legs:
/// the allowance, the payment, the legs in their order, then the burn,
/// the fee, the payment of the user, and the end.
pub open spec fn sell_stage_rank(stage: SellStage, legs: nat) -> nat {
    match stage {
        SellStage::CheckAllowance => 0,
        SellStage::PullPayment => 1,
        SellStage::TransferAsset(i) => 2 + i as nat,
        SellStage::Burn => 2 + legs,
        SellStage::PayFee => 3 + legs,
        SellStage::PayUser => 4 + legs,
        SellStage::Done => 5 + legs,
    }
}

/// A redemption only moves forward: every stage but the last is followed
/// by a later one. So no call is made twice, and the bundle tokens of the
/// quote are burned once.
pub proof fn lemma_sell_stages_advance(settlement: SellSettlement)
    requires
        settlement.wf(),
        settlement.stage != SellStage::Done,
    ensures
        sell_stage_rank(settlement.following_stage(), settlement.legs@.len()) > sell_stage_rank(
            settlement.stage,
            settlement.legs@.len(),
        ),
{
    assert(settlement.legs@.len() == settlement.legs.len());
    match settlement.stage {
        SellStage::PullPayment => {
            crate::settlement::lemma_next_leg_is_later(settlement.legs@, 0);
        },
        SellStage::TransferAsset(i) => {
            crate::settlement::lemma_next_leg_is_later(settlement.legs@, i + 1);
        },
        _ => {},
    }
}

} // verus!
