//! The token ledger as it is spoken to: the arguments of its methods.
//!
//! The ledger holds several tokens and names each by 32 bytes. It is
//! called with `icrc151_transfer_from`, `icrc151_transfer`, `mint_tokens`,
//! `burn_tokens_from`, `icrc1_balance_of`, `icrc2_allowance`,
//! `get_total_supply` and `create_token`. No call names a subaccount or a
//! fee.

use vstd::prelude::*;
use crate::asset_registry::{asset_location, AssetRegistry};
use crate::error::Error;
use crate::icrc2_client::check_user_allowance;
use crate::ledger::LedgerCall;
use crate::principal::PrincipalId;
use crate::types::{Allowance, AssetId, TokenLocation};

verus! {

/// An account on the ledger.
#[derive(Clone, Debug)]
pub struct Account {
    pub owner: PrincipalId,
    pub subaccount: Option<Vec<u8>>,
}

/// Why a transfer failed.
#[derive(Clone, Debug)]
pub enum TransferError {
    GenericError { message: String, error_code: u64 },
    TemporarilyUnavailable,
    BadBurn { min_burn_amount: u64 },
    Duplicate { duplicate_of: u64 },
    BadFee { expected_fee: u64 },
    CreatedInFuture { ledger_time: u64 },
    TooOld,
    InsufficientFunds { balance: u64 },
}

/// The answer to a transfer: the id of the transfer, or why it failed.
pub type TransferResult = Result<u64, TransferError>;

/// The arguments of `icrc151_transfer_from`.
#[derive(Clone, Debug)]
pub struct TransferFromArgs {
    pub token_id: Vec<u8>,
    pub spender_subaccount: Option<Vec<u8>>,
    pub from: Account,
    pub to: Account,
    pub amount: u64,
    pub fee: Option<u64>,
    pub memo: Option<Vec<u8>>,
    pub created_at_time: Option<u64>,
}

/// The arguments of `icrc151_transfer`.
#[derive(Clone, Debug)]
pub struct TransferArgs {
    pub token_id: Vec<u8>,
    pub from_subaccount: Option<Vec<u8>>,
    pub to: Account,
    pub amount: u64,
    pub fee: Option<u64>,
    pub memo: Option<Vec<u8>>,
    pub created_at_time: Option<u64>,
}

/// The arguments of `mint_tokens` and of `burn_tokens_from`: the token,
/// the account, the amount and the memo.
#[derive(Clone, Debug)]
pub struct SupplyArgs {
    pub token_id: Vec<u8>,
    pub account: Account,
    pub amount: u64,
    pub memo: Option<Vec<u8>>,
}

/// The arguments of `create_token`.
#[derive(Clone, Debug)]
pub struct CreateTokenArgs {
    pub name: String,
    pub symbol: String,
    pub decimals: u8,
    pub fee: Option<u64>,
    pub max_supply: Option<u64>,
    pub logo: Option<String>,
    pub description: Option<String>,
}

/// The name of a token as the bytes that the ledger takes.
pub fn token_id_bytes(token: &TokenLocation) -> (bytes: Vec<u8>)
    ensures
        bytes@ == token.token_id@,
{
    let mut bytes: Vec<u8> = Vec::new();
    let mut i: usize = 0;
    while i < 32
        invariant
            i <= 32,
            bytes@ == token.token_id@.take(i as int),
        decreases 32 - i,
    {
        bytes.push(token.token_id[i]);
        i += 1;
        assert(bytes@ =~= token.token_id@.take(i as int));
    }
    assert(token.token_id@.take(32) =~= token.token_id@);
    bytes
}

/// Whether `account` is the main account of `owner`.
pub open spec fn is_main_account(account: Account, owner: PrincipalId) -> bool {
    account.owner == owner && account.subaccount is None
}

/// The arguments of a pull of `amount` of a token that `from` has approved
/// into `to`.
pub fn transfer_from_icrc151(token: &TokenLocation, from: PrincipalId, to: PrincipalId, amount: u64, memo: Option<Vec<u8>>) -> (args:
    TransferFromArgs)
    ensures
        args.token_id@ == token.token_id@,
        args.spender_subaccount is None,
        is_main_account(args.from, from),
        is_main_account(args.to, to),
        args.amount == amount,
        args.fee is None,
        args.memo == memo,
        args.created_at_time is None,
{
    TransferFromArgs {
        token_id: token_id_bytes(token),
        spender_subaccount: None,
        from: Account { owner: from, subaccount: None },
        to: Account { owner: to, subaccount: None },
        amount,
        fee: None,
        memo,
        created_at_time: None,
    }
}

/// The arguments of a transfer of `amount` of a token from the engine's
/// account to `to`.
pub fn transfer_icrc151(token: &TokenLocation, to: PrincipalId, amount: u64, memo: Option<Vec<u8>>) -> (args:
    TransferArgs)
    ensures
        args.token_id@ == token.token_id@,
        args.from_subaccount is None,
        is_main_account(args.to, to),
        args.amount == amount,
        args.fee is None,
        args.memo == memo,
        args.created_at_time is None,
{
    TransferArgs {
        token_id: token_id_bytes(token),
        from_subaccount: None,
        to: Account { owner: to, subaccount: None },
        amount,
        fee: None,
        memo,
        created_at_time: None,
    }
}

/// The arguments of the creation of `amount` of a token for `to`.
pub fn mint_icrc151(token: &TokenLocation, to: PrincipalId, amount: u64, memo: Option<Vec<u8>>) -> (args: SupplyArgs)
    ensures
        args.token_id@ == token.token_id@,
        is_main_account(args.account, to),
        args.amount == amount,
        args.memo == memo,
{
    SupplyArgs { token_id: token_id_bytes(token), account: Account { owner: to, subaccount: None }, amount, memo }
}

/// The arguments of the destruction of `amount` of a token of `from`.
pub fn burn_icrc151(token: &TokenLocation, from: PrincipalId, amount: u64, memo: Option<Vec<u8>>) -> (args:
    SupplyArgs)
    ensures
        args.token_id@ == token.token_id@,
        is_main_account(args.account, from),
        args.amount == amount,
        args.memo == memo,
{
    SupplyArgs { token_id: token_id_bytes(token), account: Account { owner: from, subaccount: None }, amount, memo }
}

/// The arguments of the question for the balance of `account` of a token.
pub fn get_balance_icrc151(token: &TokenLocation, account: PrincipalId) -> (args: (Vec<u8>, Account))
    ensures
        args.0@ == token.token_id@,
        is_main_account(args.1, account),
{
    (token_id_bytes(token), Account { owner: account, subaccount: None })
}

/// The arguments of the question what `owner` lets `spender` pull of a
/// token.
pub fn get_allowance_icrc151(token: &TokenLocation, owner: PrincipalId, spender: PrincipalId) -> (args: (
    Vec<u8>,
    Account,
    Account,
))
    ensures
        args.0@ == token.token_id@,
        is_main_account(args.1, owner),
        is_main_account(args.2, spender),
{
    (
        token_id_bytes(token),
        Account { owner, subaccount: None },
        Account { owner: spender, subaccount: None },
    )
}

/// The arguments of the creation of a token without a cap on its supply.
pub fn create_token_icrc151(
    name: String,
    symbol: String,
    decimals: u8,
    fee: Option<u64>,
    logo: Option<String>,
    description: Option<String>,
) -> (args: CreateTokenArgs)
    ensures
        args == (CreateTokenArgs { name, symbol, decimals, fee, max_supply: None, logo, description }),
{
    CreateTokenArgs { name, symbol, decimals, fee, max_supply: None, logo, description }
}

/// The question for the balance of `account` of an asset. The asset must
/// be registered and be held on a ledger of several tokens.
pub fn get_asset_balance(registry: &AssetRegistry, asset_id: &AssetId, account: PrincipalId) -> (r: Result<
    LedgerCall,
    Error,
>)
    requires
        registry.wf(),
    ensures
        r == match asset_location(registry@, *asset_id) {
            Ok(token) => Ok::<LedgerCall, Error>(LedgerCall::TokenBalance { token, account }),
            Err(e) => Err::<LedgerCall, Error>(e),
        },
{
    match registry.get_asset_icrc151_location(asset_id) {
        Ok(token) => Ok(LedgerCall::TokenBalance { token, account }),
        Err(e) => Err(e),
    }
}

/// The pull of `amount` of an asset from `from` into `escrow`, given the
/// allowance that the ledger answered: refused where the asset is not on a
/// ledger of several tokens, and where the allowance does not cover the
/// amount.
pub fn pull_asset_from_user(
    registry: &AssetRegistry,
    asset_id: &AssetId,
    from: PrincipalId,
    escrow: PrincipalId,
    amount: u64,
    allowance: &Allowance,
) -> (r: Result<LedgerCall, Error>)
    requires
        registry.wf(),
    ensures
        r == match asset_location(registry@, *asset_id) {
            Err(e) => Err::<LedgerCall, Error>(e),
            Ok(token) => if allowance.allowance < amount {
                Err::<LedgerCall, Error>(
                    Error::InsufficientAllowance { available: allowance.allowance, required: amount },
                )
            } else {
                Ok::<LedgerCall, Error>(LedgerCall::TokenTransferFrom { token, from, to: escrow, amount })
            },
        },
{
    let token = match registry.get_asset_icrc151_location(asset_id) {
        Ok(token) => token,
        Err(e) => {
            return Err(e);
        },
    };
    match check_user_allowance(allowance, amount) {
        Ok(()) => Ok(LedgerCall::TokenTransferFrom { token, from, to: escrow, amount }),
        Err(e) => Err(e),
    }
}

/// The transfer of `amount` of an asset from escrow to `to`.
pub fn send_asset_to_user(registry: &AssetRegistry, asset_id: &AssetId, to: PrincipalId, amount: u64) -> (r:
    Result<LedgerCall, Error>)
    requires
        registry.wf(),
    ensures
        r == match asset_location(registry@, *asset_id) {
            Ok(token) => Ok::<LedgerCall, Error>(LedgerCall::TokenTransfer { token, to, amount }),
            Err(e) => Err::<LedgerCall, Error>(e),
        },
{
    match registry.get_asset_icrc151_location(asset_id) {
        Ok(token) => Ok(LedgerCall::TokenTransfer { token, to, amount }),
        Err(e) => Err(e),
    }
}

} // verus!
