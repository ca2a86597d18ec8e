//! The settlement of a purchase, step by step.
//!
//! The resolver confirms its deposit; the engine then pulls each
//! constituent asset from the resolver into escrow, mints the bundle tokens
//! to the user, pays the platform fee to the treasury and the rest of the
//! settlement amount to the resolver, releases the user's lock and marks
//! the transaction `Completed`. Each ledger call is made by the caller:
//! `next_request` says which, and `advance_buy` takes the answer.
//!
//! A step that fails changes nothing and ends the settlement; what earlier
//! steps did on the ledgers stays done. The transaction is set to
//! `InProgress` before the first call, so that a second confirmation for
//! the same transaction is refused while the first is under way.

use vstd::prelude::*;
use crate::asset_registry::AssetRegistry;
use crate::bundle_manager::{bundle_of, fee_bps_of, has_bundle, BundleStore};
use crate::error::Error;
use crate::holdings_tracker::{adjusted_amount, holding_amount, HoldingsTracker};
use crate::ledger::{memo, memo_bytes, plain_memo, reply_value, LedgerCall, LedgerRequest};
use crate::memory::GlobalState;
use crate::principal::PrincipalId;
use crate::quote_manager::{assignment_of, has_assignment, AssignmentStore};
use crate::settlement::{
    build_legs,
    first_positive_leg,
    legs_of,
    next_positive_leg,
    settlement_under_way,
    AssetLeg,
};
use crate::transaction_manager::{
    request_lookup,
    transaction_of,
    unlock_result,
    with_transition,
    without_lock,
    TransactionManager,
};
use crate::types::{
    AssetInfo,
    BundleConfig,
    LockedFundType,
    LockedFunds,
    OperationType,
    QuoteAssignment,
    TokenLocation,
    Transaction,
    TransactionStatus,
};

verus! {

/// Where the settlement of a purchase stands: the call that is to be made
/// next.
#[derive(Clone, Copy, Debug, PartialEq, Eq, Structural)]
pub enum BuyStage {
    /// Ask what the resolver lets the engine pull of the asset of a leg.
    CheckAllowance(usize),
    /// Pull the asset of a leg from the resolver into escrow.
    PullAsset(usize),
    /// Mint the bundle tokens to the user.
    Mint,
    /// Pay the platform fee to the treasury.
    PayFee,
    /// Pay the rest of the settlement amount to the resolver.
    PayResolver,
    /// Nothing is left to do.
    Done,
}

/// The settlement of one purchase.
#[derive(Debug)]
pub struct BuySettlement {
    pub transaction_id: u64,
    pub bundle_id: u64,
    pub user: PrincipalId,
    pub resolver: PrincipalId,
    pub escrow: PrincipalId,
    pub nav_tokens: u64,
    pub ckusdc_amount: u64,
    pub fees: u64,
    pub fee_bps: u64,
    pub treasury: Option<PrincipalId>,
    pub bundle_token: TokenLocation,
    pub legs: Vec<AssetLeg>,
    pub stage: BuyStage,
}

/// The stage at which a purchase with these legs starts.
pub open spec fn first_buy_stage(legs: Seq<AssetLeg>) -> BuyStage {
    match first_positive_leg(legs, 0) {
        Some(i) => BuyStage::CheckAllowance(i as usize),
        None => BuyStage::Mint,
    }
}

impl BuySettlement {
    /// The fee is within the settlement amount, and the stage names a leg
    /// that exists and moves a positive amount.
    pub open spec fn wf(&self) -> bool {
        &&& self.fees <= self.ckusdc_amount
        &&& match self.stage {
            BuyStage::CheckAllowance(i) => i < self.legs@.len() && self.legs@[i as int].amount > 0,
            BuyStage::PullAsset(i) => i < self.legs@.len() && self.legs@[i as int].amount > 0,
            BuyStage::PayFee => self.treasury is Some && self.fees > 0,
            _ => true,
        }
    }

    /// The call to make at the current stage.
    pub open spec fn call(&self) -> Option<LedgerCall> {
        match self.stage {
            BuyStage::CheckAllowance(i) => Some(
                LedgerCall::TokenAllowance {
                    token: self.legs@[i as int].token,
                    owner: self.resolver,
                    spender: self.escrow,
                },
            ),
            BuyStage::PullAsset(i) => Some(
                LedgerCall::TokenTransferFrom {
                    token: self.legs@[i as int].token,
                    from: self.resolver,
                    to: self.escrow,
                    amount: self.legs@[i as int].amount,
                },
            ),
            BuyStage::Mint => Some(
                LedgerCall::TokenMint { token: self.bundle_token, to: self.user, amount: self.nav_tokens },
            ),
            BuyStage::PayFee => Some(
                LedgerCall::SettlementTransfer { to: self.treasury->Some_0, amount: self.fees },
            ),
            BuyStage::PayResolver => Some(
                LedgerCall::SettlementTransfer {
                    to: self.resolver,
                    amount: (self.ckusdc_amount - self.fees) as u64,
                },
            ),
            BuyStage::Done => None,
        }
    }

    /// The memo of the call at the current stage.
    pub open spec fn memo_text(&self) -> Seq<u8> {
        match self.stage {
            BuyStage::CheckAllowance(i) => memo_bytes(
                "Buy tx "@,
                self.transaction_id,
                " - "@,
                None,
                ""@,
                Some(self.legs@[i as int].asset_id@),
                " allowance"@,
            ),
            BuyStage::PullAsset(i) => memo_bytes(
                "Buy tx "@,
                self.transaction_id,
                " - "@,
                None,
                ""@,
                Some(self.legs@[i as int].asset_id@),
                " collateral"@,
            ),
            BuyStage::Mint => memo_bytes(
                "Buy tx "@,
                self.transaction_id,
                " - mint "@,
                Some(self.nav_tokens),
                " bundle tokens"@,
                None,
                ""@,
            ),
            BuyStage::PayFee => memo_bytes(
                "Platform fee for buy tx "@,
                self.transaction_id,
                " ("@,
                Some(self.fee_bps),
                "bps)"@,
                None,
                ""@,
            ),
            BuyStage::PayResolver => plain_memo("Payment for buy tx "@, self.transaction_id),
            BuyStage::Done => Seq::<u8>::empty(),
        }
    }

    /// The stage that follows the current one when its call has succeeded.
    pub open spec fn following_stage(&self) -> BuyStage {
        match self.stage {
            BuyStage::CheckAllowance(i) => BuyStage::PullAsset(i),
            BuyStage::PullAsset(i) => match first_positive_leg(self.legs@, i + 1) {
                Some(j) => BuyStage::CheckAllowance(j as usize),
                None => BuyStage::Mint,
            },
            BuyStage::Mint => if self.fees > 0 && self.treasury is Some {
                BuyStage::PayFee
            } else {
                BuyStage::PayResolver
            },
            BuyStage::PayFee => BuyStage::PayResolver,
            BuyStage::PayResolver => BuyStage::Done,
            BuyStage::Done => BuyStage::Done,
        }
    }

    /// Whether `next` is this settlement at another stage.
    pub open spec fn moved_to(&self, next: BuySettlement, stage: BuyStage) -> bool {
        &&& next.transaction_id == self.transaction_id
        &&& next.bundle_id == self.bundle_id
        &&& next.user == self.user
        &&& next.resolver == self.resolver
        &&& next.escrow == self.escrow
        &&& next.nav_tokens == self.nav_tokens
        &&& next.ckusdc_amount == self.ckusdc_amount
        &&& next.fees == self.fees
        &&& next.fee_bps == self.fee_bps
        &&& next.treasury == self.treasury
        &&& next.bundle_token == self.bundle_token
        &&& next.legs@ == self.legs@
        &&& next.stage == stage
    }

    /// The call to make next with its memo, or `None` when the settlement
    /// is done.
    pub fn next_request(&self) -> (r: Option<LedgerRequest>)
        requires
            self.wf(),
        ensures
            match r {
                Some(request) => self.call() == Some(request.call) && request.memo@ == self.memo_text(),
                None => self.call() is None,
            },
    {
        match self.stage {
            BuyStage::CheckAllowance(i) => Some(
                LedgerRequest {
                    call: LedgerCall::TokenAllowance {
                        token: self.legs[i].token,
                        owner: self.resolver,
                        spender: self.escrow,
                    },
                    memo: memo(
                        "Buy tx ",
                        self.transaction_id,
                        " - ",
                        None,
                        "",
                        Some(&self.legs[i].asset_id),
                        " allowance",
                    ),
                },
            ),
            BuyStage::PullAsset(i) => Some(
                LedgerRequest {
                    call: LedgerCall::TokenTransferFrom {
                        token: self.legs[i].token,
                        from: self.resolver,
                        to: self.escrow,
                        amount: self.legs[i].amount,
                    },
                    memo: memo(
                        "Buy tx ",
                        self.transaction_id,
                        " - ",
                        None,
                        "",
                        Some(&self.legs[i].asset_id),
                        " collateral",
                    ),
                },
            ),
            BuyStage::Mint => Some(
                LedgerRequest {
                    call: LedgerCall::TokenMint {
                        token: self.bundle_token,
                        to: self.user,
                        amount: self.nav_tokens,
                    },
                    memo: memo(
                        "Buy tx ",
                        self.transaction_id,
                        " - mint ",
                        Some(self.nav_tokens),
                        " bundle tokens",
                        None,
                        "",
                    ),
                },
            ),
            BuyStage::PayFee => match self.treasury {
                Some(treasury) => Some(
                    LedgerRequest {
                        call: LedgerCall::SettlementTransfer { to: treasury, amount: self.fees },
                        memo: memo(
                            "Platform fee for buy tx ",
                            self.transaction_id,
                            " (",
                            Some(self.fee_bps),
                            "bps)",
                            None,
                            "",
                        ),
                    },
                ),
                None => None,
            },
            BuyStage::PayResolver => Some(
                LedgerRequest {
                    call: LedgerCall::SettlementTransfer {
                        to: self.resolver,
                        amount: self.ckusdc_amount - self.fees,
                    },
                    memo: memo("Payment for buy tx ", self.transaction_id, "", None, "", None, ""),
                },
            ),
            BuyStage::Done => None,
        }
    }
}

/// Whether a deposit can be confirmed, and if not, why. The checks are
/// made in this order: an assignment is stored for the request; a
/// transaction was made for it; the caller is the assigned resolver; the
/// transaction is a purchase; it waits for the resolver; its bundle is
/// known; every asset amount has a leg; the fee is within the amount.
pub open spec fn deposit_check(
    assignments: Seq<QuoteAssignment>,
    txs: Seq<Transaction>,
    bundles: Seq<BundleConfig>,
    assets: Seq<AssetInfo>,
    request_id: u64,
    caller: PrincipalId,
) -> Result<(), Error> {
    let assignment = assignment_of(assignments, request_id);
    if !has_assignment(assignments, request_id) {
        Err(Error::AssignmentNotFound)
    } else {
        match request_lookup(txs, request_id) {
            Err(e) => Err(e),
            Ok(tx) => if assignment.resolver != caller {
                Err(Error::NotAssignedResolver)
            } else if tx.operation != OperationType::Buy {
                Err(Error::NotBuyOperation)
            } else if tx.status != TransactionStatus::FundsLocked && tx.status
                != TransactionStatus::WaitingForResolver {
                Err(Error::WrongStatus)
            } else if !has_bundle(bundles, tx.bundle_id) {
                Err(Error::BundleNotFound { bundle_id: tx.bundle_id })
            } else {
                match legs_of(assets, Some(bundle_of(bundles, tx.bundle_id).allocations@), assignment.asset_amounts@) {
                    Err(e) => Err(e),
                    Ok(_) => if assignment.fees > assignment.ckusdc_amount {
                        Err(Error::FeeExceedsAmount)
                    } else {
                        Ok(())
                    },
                }
            },
        }
    }
}

/// Whether `settlement` is the one that a confirmed deposit opens.
pub open spec fn opens_buy(
    settlement: BuySettlement,
    config: GlobalState,
    assignments: Seq<QuoteAssignment>,
    txs: Seq<Transaction>,
    bundles: Seq<BundleConfig>,
    assets: Seq<AssetInfo>,
    escrow: PrincipalId,
    request_id: u64,
) -> bool {
    let assignment = assignment_of(assignments, request_id);
    let tx = request_lookup(txs, request_id)->Ok_0;
    let bundle = bundle_of(bundles, tx.bundle_id);
    &&& settlement.transaction_id == tx.id
    &&& settlement.bundle_id == tx.bundle_id
    &&& settlement.user == tx.user
    &&& settlement.resolver == assignment.resolver
    &&& settlement.escrow == escrow
    &&& settlement.nav_tokens == assignment.nav_tokens
    &&& settlement.ckusdc_amount == assignment.ckusdc_amount
    &&& settlement.fees == assignment.fees
    &&& settlement.fee_bps == fee_bps_of(bundle)
    &&& settlement.treasury == config.platform_treasury
    &&& settlement.bundle_token == bundle.token_location
    &&& legs_of(assets, Some(bundle.allocations@), assignment.asset_amounts@) == Ok::<Seq<AssetLeg>, Error>(
        settlement.legs@,
    )
    &&& settlement.stage == first_buy_stage(settlement.legs@)
}

/// Opens the settlement of a purchase on the resolver's confirmation, and
/// sets the transaction to `InProgress`. Where the confirmation is refused
/// nothing changes.
pub fn confirm_asset_deposit(
    config: &GlobalState,
    bundles: &BundleStore,
    registry: &AssetRegistry,
    assignments: &AssignmentStore,
    manager: &mut TransactionManager,
    escrow: PrincipalId,
    request_id: u64,
    caller: PrincipalId,
    now: u64,
) -> (r: Result<BuySettlement, Error>)
    requires
        bundles.wf(),
        registry.wf(),
        assignments.wf(),
        old(manager).wf(),
    ensures
        final(manager).wf(),
        final(manager).locks() == old(manager).locks(),
        final(manager).counter() == old(manager).counter(),
        match deposit_check(assignments@, old(manager).transactions(), bundles@, registry@, request_id, caller) {
            Err(e) => r == Err::<BuySettlement, Error>(e) && final(manager).transactions() == old(
                manager,
            ).transactions(),
            Ok(()) => {
                &&& r is Ok
                &&& r->Ok_0.wf()
                &&& opens_buy(
                    r->Ok_0,
                    *config,
                    assignments@,
                    old(manager).transactions(),
                    bundles@,
                    registry@,
                    escrow,
                    request_id,
                )
                &&& final(manager).transactions() == with_transition(
                    old(manager).transactions(),
                    r->Ok_0.transaction_id,
                    TransactionStatus::InProgress,
                    now,
                )
            },
        },
{
    let assignment = match assignments.get_assignment(request_id) {
        Ok(a) => a,
        Err(e) => {
            return Err(e);
        },
    };
    let tx = match manager.get_transaction_by_request(request_id) {
        Ok(tx) => tx,
        Err(e) => {
            return Err(e);
        },
    };
    if !assignment.resolver.same_as(&caller) {
        return Err(Error::NotAssignedResolver);
    }
    match tx.operation {
        OperationType::Buy => {},
        OperationType::Sell => {
            return Err(Error::NotBuyOperation);
        },
    }
    if tx.status != TransactionStatus::FundsLocked && tx.status != TransactionStatus::WaitingForResolver {
        return Err(Error::WrongStatus);
    }
    let bundle = match bundles.get_bundle(tx.bundle_id) {
        Ok(b) => b,
        Err(e) => {
            return Err(e);
        },
    };
    let legs = match build_legs(registry, Some(&bundle.allocations), &assignment.asset_amounts) {
        Ok(legs) => legs,
        Err(e) => {
            return Err(e);
        },
    };
    if assignment.fees > assignment.ckusdc_amount {
        return Err(Error::FeeExceedsAmount);
    }
    let stage = match next_positive_leg(&legs, 0) {
        Some(i) => BuyStage::CheckAllowance(i),
        None => BuyStage::Mint,
    };
    let moved = manager.update_transaction_status(tx.id, TransactionStatus::InProgress, now);
    assert(moved is Ok);
    Ok(
        BuySettlement {
            transaction_id: tx.id,
            bundle_id: tx.bundle_id,
            user: tx.user,
            resolver: assignment.resolver,
            escrow,
            nav_tokens: assignment.nav_tokens,
            ckusdc_amount: assignment.ckusdc_amount,
            fees: assignment.fees,
            fee_bps: match bundle.platform_fee_bps {
                Some(bps) => bps,
                None => crate::memory::DEFAULT_PLATFORM_FEE_BPS,
            },
            treasury: config.platform_treasury,
            bundle_token: bundle.token_location,
            legs,
            stage,
        },
    )
}

/// Whether a step of a purchase succeeds, given what the ledger answered,
/// and if not, why. A failed call fails the step. The transaction must
/// still be under way: a sweep may have timed it out meanwhile. An
/// allowance must cover the amount of its leg; a pulled amount must fit in
/// the bundle's holding; and after the payment the user's lock must be
/// there to release.
pub open spec fn buy_step_check(
    settlement: BuySettlement,
    txs: Seq<Transaction>,
    locks: Seq<LockedFunds>,
    holdings: Seq<crate::types::BundleHolding>,
    reply: Result<u64, Error>,
) -> Result<(), Error> {
    match reply {
        Err(e) => Err(e),
        Ok(answer) => if !settlement_under_way(txs, settlement.transaction_id) {
            Err(Error::WrongStatus)
        } else {
            match settlement.stage {
                BuyStage::CheckAllowance(i) => if answer < settlement.legs@[i as int].amount {
                    Err(
                        Error::InsufficientAllowance {
                            available: answer,
                            required: settlement.legs@[i as int].amount,
                        },
                    )
                } else {
                    Ok(())
                },
                BuyStage::PullAsset(i) => match adjusted_amount(
                    holding_amount(holdings, settlement.bundle_id, settlement.legs@[i as int].asset_id@),
                    true,
                    settlement.legs@[i as int].amount,
                ) {
                    Err(e) => Err(e),
                    Ok(_) => Ok(()),
                },
                BuyStage::PayResolver => match unlock_result(
                    txs,
                    locks,
                    settlement.transaction_id,
                    LockedFundType::CkUSDC,
                ) {
                    Err(e) => Err(e),
                    Ok(_) => Ok(()),
                },
                BuyStage::Done => Err(Error::WrongStatus),
                _ => Ok(()),
            }
        },
    }
}

/// The transactions after a successful step of a purchase: the pull of the
/// last leg sets the transaction to `AssetsTransferred`, the payment of the
/// resolver to `Completed`.
pub open spec fn transactions_after_buy_step(settlement: BuySettlement, txs: Seq<Transaction>, now: u64) -> Seq<
    Transaction,
> {
    match settlement.stage {
        BuyStage::PullAsset(_) => if settlement.following_stage() == BuyStage::Mint {
            with_transition(txs, settlement.transaction_id, TransactionStatus::AssetsTransferred, now)
        } else {
            txs
        },
        BuyStage::PayResolver => with_transition(
            txs,
            settlement.transaction_id,
            TransactionStatus::Completed,
            now,
        ),
        _ => txs,
    }
}

/// The locks after a successful step of a purchase: the payment of the
/// resolver releases the user's lock.
pub open spec fn locks_after_buy_step(settlement: BuySettlement, txs: Seq<Transaction>, locks: Seq<LockedFunds>) -> Seq<
    LockedFunds,
> {
    match settlement.stage {
        BuyStage::PayResolver => without_lock(
            locks,
            transaction_of(txs, settlement.transaction_id).user,
            settlement.transaction_id,
            LockedFundType::CkUSDC,
        ),
        _ => locks,
    }
}

/// Takes the ledger's answer to the call of the current stage and moves
/// the settlement to the next stage. A pulled asset is added to the
/// bundle's holdings. Where the step fails nothing changes.
pub fn advance_buy(
    holdings: &mut HoldingsTracker,
    manager: &mut TransactionManager,
    settlement: BuySettlement,
    reply: Result<u64, String>,
    now: u64,
) -> (r: Result<BuySettlement, Error>)
    requires
        old(holdings).wf(),
        old(manager).wf(),
        settlement.wf(),
    ensures
        final(holdings).wf(),
        final(manager).wf(),
        final(manager).counter() == old(manager).counter(),
        match buy_step_check(
            settlement,
            old(manager).transactions(),
            old(manager).locks(),
            old(holdings)@,
            reply_value(reply),
        ) {
            Err(e) => {
                &&& r == Err::<BuySettlement, Error>(e)
                &&& final(holdings)@ == old(holdings)@
                &&& final(manager).transactions() == old(manager).transactions()
                &&& final(manager).locks() == old(manager).locks()
            },
            Ok(()) => {
                &&& r is Ok
                &&& r->Ok_0.wf()
                &&& settlement.moved_to(r->Ok_0, settlement.following_stage())
                &&& final(manager).transactions() == transactions_after_buy_step(
                    settlement,
                    old(manager).transactions(),
                    now,
                )
                &&& final(manager).locks() == locks_after_buy_step(
                    settlement,
                    old(manager).transactions(),
                    old(manager).locks(),
                )
                &&& match settlement.stage {
                    BuyStage::PullAsset(i) => {
                        &&& holding_amount(
                            final(holdings)@,
                            settlement.bundle_id,
                            settlement.legs@[i as int].asset_id@,
                        ) == holding_amount(
                            old(holdings)@,
                            settlement.bundle_id,
                            settlement.legs@[i as int].asset_id@,
                        ) + settlement.legs@[i as int].amount
                        &&& forall|bundle: u64, asset: Seq<char>|
                            !(bundle == settlement.bundle_id && asset == settlement.legs@[i as int].asset_id@)
                                ==> #[trigger] holding_amount(final(holdings)@, bundle, asset) == holding_amount(
                                old(holdings)@,
                                bundle,
                                asset,
                            )
                    },
                    _ => final(holdings)@ == old(holdings)@,
                }
            },
        },
{
    let answer = match reply {
        Ok(answer) => answer,
        Err(reason) => {
            return Err(Error::LedgerCallFailed { reason });
        },
    };
    match manager.get_transaction(settlement.transaction_id) {
        Ok(tx) => {
            if tx.status != TransactionStatus::InProgress && tx.status != TransactionStatus::AssetsTransferred {
                return Err(Error::WrongStatus);
            }
        },
        Err(_) => {
            return Err(Error::WrongStatus);
        },
    }
    let mut settlement = settlement;
    match settlement.stage {
        BuyStage::CheckAllowance(i) => {
            if answer < settlement.legs[i].amount {
                return Err(
                    Error::InsufficientAllowance { available: answer, required: settlement.legs[i].amount },
                );
            }
            settlement.stage = BuyStage::PullAsset(i);
            Ok(settlement)
        },
        BuyStage::PullAsset(i) => {
            match holdings.adjust_holding(
                settlement.bundle_id,
                &settlement.legs[i].asset_id,
                true,
                settlement.legs[i].amount,
                now,
            ) {
                Ok(()) => {},
                Err(e) => {
                    return Err(e);
                },
            }
            let legs_len = settlement.legs.len();
            assert(i < legs_len);
            match next_positive_leg(&settlement.legs, i + 1) {
                Some(j) => {
                    settlement.stage = BuyStage::CheckAllowance(j);
                },
                None => {
                    let moved = manager.update_transaction_status(
                        settlement.transaction_id,
                        TransactionStatus::AssetsTransferred,
                        now,
                    );
                    assert(moved is Ok);
                    settlement.stage = BuyStage::Mint;
                },
            }
            Ok(settlement)
        },
        BuyStage::Mint => {
            settlement.stage = if settlement.fees > 0 && settlement.treasury.is_some() {
                BuyStage::PayFee
            } else {
                BuyStage::PayResolver
            };
            Ok(settlement)
        },
        BuyStage::PayFee => {
            settlement.stage = BuyStage::PayResolver;
            Ok(settlement)
        },
        BuyStage::PayResolver => {
            match manager.unlock_user_funds(settlement.transaction_id, &LockedFundType::CkUSDC) {
                Ok(_) => {},
                Err(e) => {
                    return Err(e);
                },
            }
            let moved = manager.update_transaction_status(
                settlement.transaction_id,
                TransactionStatus::Completed,
                now,
            );
            assert(moved is Ok);
            settlement.stage = BuyStage::Done;
            Ok(settlement)
        },
        BuyStage::Done => Err(Error::WrongStatus),
    }
}

/// In a purchase, what the resolver is paid and the platform fee add up to
/// the settlement amount, and the bundle tokens that are minted are those
/// of the quote, to the user.
pub proof fn lemma_buy_conserves_value(settlement: BuySettlement)
    requires
        settlement.wf(),
    ensures
        settlement.stage == BuyStage::PayResolver ==> settlement.call() == Some(
            LedgerCall::SettlementTransfer {
                to: settlement.resolver,
                amount: (settlement.ckusdc_amount - settlement.fees) as u64,
            },
        ) && (settlement.ckusdc_amount - settlement.fees) + settlement.fees == settlement.ckusdc_amount,
        settlement.stage == BuyStage::PayFee ==> settlement.call() == Some(
            LedgerCall::SettlementTransfer { to: settlement.treasury->Some_0, amount: settlement.fees },
        ),
        settlement.stage == BuyStage::Mint ==> settlement.call() == Some(
            LedgerCall::TokenMint {
                token: settlement.bundle_token,
                to: settlement.user,
                amount: settlement.nav_tokens,
            },
        ),
{
}

/// The place of a stage in the order of a purchase with `legs` legs: the
/// legs in their order, each first asked for and then pulled, then the
/// mint, the fee, the payment, and the end.
pub open spec fn buy_stage_rank(stage: BuyStage, legs: nat) -> nat {
    match stage {
        BuyStage::CheckAllowance(i) => 2 * i as nat,
        BuyStage::PullAsset(i) => 2 * i as nat + 1,
        BuyStage::Mint => 2 * legs,
        BuyStage::PayFee => 2 * legs + 1,
        BuyStage::PayResolver => 2 * legs + 2,
        BuyStage::Done => 2 * legs + 3,
    }
}

/// A purchase only moves forward: every stage but the last is followed by
/// a later one. So no call is made twice, and the bundle tokens of the
/// quote are minted once.
pub proof fn lemma_buy_stages_advance(settlement: BuySettlement)
    requires
        settlement.wf(),
        settlement.stage != BuyStage::Done,
    ensures
        buy_stage_rank(settlement.following_stage(), settlement.legs@.len()) > buy_stage_rank(
            settlement.stage,
            settlement.legs@.len(),
        ),
{
    assert(settlement.legs@.len() == settlement.legs.len());
    match settlement.stage {
        BuyStage::PullAsset(i) => {
            crate::settlement::lemma_next_leg_is_later(settlement.legs@, i + 1);
        },
        _ => {},
    }
}

} // verus!
