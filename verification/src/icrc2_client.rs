//! The settlement ledger as it is spoken to: the arguments of its methods
//! and what its answers mean.
//!
//! The ledger is called with `icrc1_transfer`, `icrc2_transfer_from`,
//! `icrc2_approve`, `icrc2_allowance` and `icrc1_balance_of`. No call names
//! a subaccount or a fee, and every transfer is stamped with the time at
//! which it is made.

use vstd::prelude::*;
use vstd::string::StringExecFns;
use crate::error::Error;
use crate::ledger::LedgerCall;
use crate::principal::PrincipalId;
use crate::text::{decimal_chars, push_decimal};
use crate::types::Allowance;

verus! {

/// The textual form of the identity of the settlement ledger.
pub const CKUSDC_LEDGER_CANISTER: &'static str = "xevnm-gaaaa-aaaar-qafnq-cai";

/// An account on the ledger.
#[derive(Clone, Copy, Debug, PartialEq, Eq)]
pub struct Account {
    pub owner: PrincipalId,
    pub subaccount: Option<[u8; 32]>,
}

/// The arguments of `icrc1_transfer`.
#[derive(Clone, Debug)]
pub struct TransferArgs {
    pub from_subaccount: Option<[u8; 32]>,
    pub to: Account,
    pub amount: u64,
    pub fee: Option<u64>,
    pub memo: Option<Vec<u8>>,
    pub created_at_time: Option<u64>,
}

/// The arguments of `icrc2_transfer_from`.
#[derive(Clone, Debug)]
pub struct TransferFromArgs {
    pub spender_subaccount: Option<[u8; 32]>,
    pub from: Account,
    pub to: Account,
    pub amount: u64,
    pub fee: Option<u64>,
    pub memo: Option<Vec<u8>>,
    pub created_at_time: Option<u64>,
}

/// The arguments of `icrc2_approve`.
#[derive(Clone, Debug)]
pub struct ApproveArgs {
    pub from_subaccount: Option<[u8; 32]>,
    pub spender: Account,
    pub amount: u64,
    pub expected_allowance: Option<u64>,
    pub expires_at: Option<u64>,
    pub fee: Option<u64>,
    pub memo: Option<Vec<u8>>,
    pub created_at_time: Option<u64>,
}

/// The arguments of `icrc2_allowance`.
#[derive(Clone, Copy, Debug, PartialEq, Eq)]
pub struct AllowanceArgs {
    pub account: Account,
    pub spender: Account,
}

/// Why a transfer failed.
#[derive(Clone, Debug)]
pub enum TransferError {
    BadFee { expected_fee: u64 },
    BadBurn { min_burn_amount: u64 },
    InsufficientFunds { balance: u64 },
    InsufficientAllowance { allowance: u64 },
    TooOld,
    CreatedInFuture { ledger_time: u64 },
    Duplicate { duplicate_of: u64 },
    TemporarilyUnavailable,
    GenericError { error_code: u64, message: String },
}

/// Why an approval failed.
#[derive(Clone, Debug)]
pub enum ApproveError {
    BadFee { expected_fee: u64 },
    InsufficientFunds { balance: u64 },
    AllowanceChanged { current_allowance: u64 },
    Expired { ledger_time: u64 },
    TooOld,
    CreatedInFuture { ledger_time: u64 },
    Duplicate { duplicate_of: u64 },
    TemporarilyUnavailable,
    GenericError { error_code: u64, message: String },
}

/// The answer to a transfer: the index of its block, or why it failed.
pub type TransferResult = Result<u64, TransferError>;

/// The answer to an approval: the index of its block, or why it failed.
pub type ApproveResult = Result<u64, ApproveError>;

/// The main account of an owner.
pub open spec fn main_account(owner: PrincipalId) -> Account {
    Account { owner, subaccount: None }
}

/// The arguments of a transfer of `amount` from the engine's account to
/// `to`, made at `now`.
pub fn icrc1_transfer(to: PrincipalId, amount: u64, memo: Option<Vec<u8>>, now: u64) -> (args: TransferArgs)
    ensures
        args == (TransferArgs {
            from_subaccount: None,
            to: main_account(to),
            amount,
            fee: None,
            memo,
            created_at_time: Some(now),
        }),
{
    TransferArgs {
        from_subaccount: None,
        to: Account { owner: to, subaccount: None },
        amount,
        fee: None,
        memo,
        created_at_time: Some(now),
    }
}

/// The arguments of a pull of `amount` that `from` has approved into `to`,
/// made at `now`.
pub fn icrc2_transfer_from(from: PrincipalId, to: PrincipalId, amount: u64, memo: Option<Vec<u8>>, now: u64) -> (args:
    TransferFromArgs)
    ensures
        args == (TransferFromArgs {
            spender_subaccount: None,
            from: main_account(from),
            to: main_account(to),
            amount,
            fee: None,
            memo,
            created_at_time: Some(now),
        }),
{
    TransferFromArgs {
        spender_subaccount: None,
        from: Account { owner: from, subaccount: None },
        to: Account { owner: to, subaccount: None },
        amount,
        fee: None,
        memo,
        created_at_time: Some(now),
    }
}

/// The arguments of an approval that lets `spender` pull `amount`, made at
/// `now`.
pub fn icrc2_approve(spender: PrincipalId, amount: u64, expires_at: Option<u64>, memo: Option<Vec<u8>>, now: u64) -> (args:
    ApproveArgs)
    ensures
        args == (ApproveArgs {
            from_subaccount: None,
            spender: main_account(spender),
            amount,
            expected_allowance: None,
            expires_at,
            fee: None,
            memo,
            created_at_time: Some(now),
        }),
{
    ApproveArgs {
        from_subaccount: None,
        spender: Account { owner: spender, subaccount: None },
        amount,
        expected_allowance: None,
        expires_at,
        fee: None,
        memo,
        created_at_time: Some(now),
    }
}

/// The arguments of the question what `owner` lets `spender` pull.
pub fn icrc2_allowance(owner: PrincipalId, spender: PrincipalId) -> (args: AllowanceArgs)
    ensures
        args == (AllowanceArgs { account: main_account(owner), spender: main_account(spender) }),
{
    AllowanceArgs {
        account: Account { owner, subaccount: None },
        spender: Account { owner: spender, subaccount: None },
    }
}

/// The argument of the question for the balance of `account`.
pub fn icrc1_balance_of(account: PrincipalId) -> (args: Account)
    ensures
        args == main_account(account),
{
    Account { owner: account, subaccount: None }
}

/// The name of the failure and the number it carries, if any.
pub open spec fn transfer_error_text(error: TransferError) -> Seq<char> {
    match error {
        TransferError::BadFee { expected_fee } => "BadFee "@ + decimal_chars(expected_fee as nat),
        TransferError::BadBurn { min_burn_amount } => "BadBurn "@ + decimal_chars(min_burn_amount as nat),
        TransferError::InsufficientFunds { balance } => "InsufficientFunds "@ + decimal_chars(balance as nat),
        TransferError::InsufficientAllowance { allowance } => "InsufficientAllowance "@ + decimal_chars(
            allowance as nat,
        ),
        TransferError::TooOld => "TooOld"@,
        TransferError::CreatedInFuture { ledger_time } => "CreatedInFuture "@ + decimal_chars(ledger_time as nat),
        TransferError::Duplicate { duplicate_of } => "Duplicate "@ + decimal_chars(duplicate_of as nat),
        TransferError::TemporarilyUnavailable => "TemporarilyUnavailable"@,
        TransferError::GenericError { error_code, message } => "GenericError "@ + decimal_chars(error_code as nat)
            + " "@ + message@,
    }
}

/// The name of the failure and the number it carries, if any.
pub open spec fn approve_error_text(error: ApproveError) -> Seq<char> {
    match error {
        ApproveError::BadFee { expected_fee } => "BadFee "@ + decimal_chars(expected_fee as nat),
        ApproveError::InsufficientFunds { balance } => "InsufficientFunds "@ + decimal_chars(balance as nat),
        ApproveError::AllowanceChanged { current_allowance } => "AllowanceChanged "@ + decimal_chars(
            current_allowance as nat,
        ),
        ApproveError::Expired { ledger_time } => "Expired "@ + decimal_chars(ledger_time as nat),
        ApproveError::TooOld => "TooOld"@,
        ApproveError::CreatedInFuture { ledger_time } => "CreatedInFuture "@ + decimal_chars(ledger_time as nat),
        ApproveError::Duplicate { duplicate_of } => "Duplicate "@ + decimal_chars(duplicate_of as nat),
        ApproveError::TemporarilyUnavailable => "TemporarilyUnavailable"@,
        ApproveError::GenericError { error_code, message } => "GenericError "@ + decimal_chars(error_code as nat)
            + " "@ + message@,
    }
}

fn named(name: &str, number: u64) -> (s: String)
    ensures
        s@ == name@ + decimal_chars(number as nat),
{
    let mut s = String::from_str(name);
    push_decimal(&mut s, number);
    s
}

/// The failure of a transfer as text.
pub fn describe_transfer_error(error: &TransferError) -> (s: String)
    ensures
        s@ == transfer_error_text(*error),
{
    match error {
        TransferError::BadFee { expected_fee } => named("BadFee ", *expected_fee),
        TransferError::BadBurn { min_burn_amount } => named("BadBurn ", *min_burn_amount),
        TransferError::InsufficientFunds { balance } => named("InsufficientFunds ", *balance),
        TransferError::InsufficientAllowance { allowance } => named("InsufficientAllowance ", *allowance),
        TransferError::TooOld => String::from_str("TooOld"),
        TransferError::CreatedInFuture { ledger_time } => named("CreatedInFuture ", *ledger_time),
        TransferError::Duplicate { duplicate_of } => named("Duplicate ", *duplicate_of),
        TransferError::TemporarilyUnavailable => String::from_str("TemporarilyUnavailable"),
        TransferError::GenericError { error_code, message } => {
            let mut s = named("GenericError ", *error_code);
            s.append(" ");
            s.append(message.as_str());
            assert(s@ =~= transfer_error_text(*error));
            s
        },
    }
}

/// The failure of an approval as text.
pub fn describe_approve_error(error: &ApproveError) -> (s: String)
    ensures
        s@ == approve_error_text(*error),
{
    match error {
        ApproveError::BadFee { expected_fee } => named("BadFee ", *expected_fee),
        ApproveError::InsufficientFunds { balance } => named("InsufficientFunds ", *balance),
        ApproveError::AllowanceChanged { current_allowance } => named("AllowanceChanged ", *current_allowance),
        ApproveError::Expired { ledger_time } => named("Expired ", *ledger_time),
        ApproveError::TooOld => String::from_str("TooOld"),
        ApproveError::CreatedInFuture { ledger_time } => named("CreatedInFuture ", *ledger_time),
        ApproveError::Duplicate { duplicate_of } => named("Duplicate ", *duplicate_of),
        ApproveError::TemporarilyUnavailable => String::from_str("TemporarilyUnavailable"),
        ApproveError::GenericError { error_code, message } => {
            let mut s = named("GenericError ", *error_code);
            s.append(" ");
            s.append(message.as_str());
            assert(s@ =~= approve_error_text(*error));
            s
        },
    }
}

/// What the answer to a transfer means to the engine: the block index, or
/// the failure as text.
pub fn transfer_outcome(result: &TransferResult) -> (r: Result<u64, String>)
    ensures
        match *result {
            Ok(block) => r == Ok::<u64, String>(block),
            Err(error) => r is Err && r->Err_0@ == transfer_error_text(error),
        },
{
    match result {
        Ok(block) => Ok(*block),
        Err(error) => Err(describe_transfer_error(error)),
    }
}

/// What the answer to an approval means to the engine: the block index, or
/// the failure as text.
pub fn approve_outcome(result: &ApproveResult) -> (r: Result<u64, String>)
    ensures
        match *result {
            Ok(block) => r == Ok::<u64, String>(block),
            Err(error) => r is Err && r->Err_0@ == approve_error_text(error),
        },
{
    match result {
        Ok(block) => Ok(*block),
        Err(error) => Err(describe_approve_error(error)),
    }
}

/// Whether an allowance covers a pull of `amount`.
pub fn check_user_allowance(allowance: &Allowance, amount: u64) -> (r: Result<(), Error>)
    ensures
        r == if allowance.allowance < amount {
            Err::<(), Error>(Error::InsufficientAllowance { available: allowance.allowance, required: amount })
        } else {
            Ok::<(), Error>(())
        },
{
    if allowance.allowance < amount {
        Err(Error::InsufficientAllowance { available: allowance.allowance, required: amount })
    } else {
        Ok(())
    }
}

/// The pull of `amount` of settlement currency from `from` into `escrow`,
/// given the allowance that the ledger answered: refused where the
/// allowance does not cover the amount.
pub fn pull_ckusdc_from_user(from: PrincipalId, escrow: PrincipalId, amount: u64, allowance: &Allowance) -> (r:
    Result<LedgerCall, Error>)
    ensures
        r == if allowance.allowance < amount {
            Err::<LedgerCall, Error>(
                Error::InsufficientAllowance { available: allowance.allowance, required: amount },
            )
        } else {
            Ok::<LedgerCall, Error>(LedgerCall::SettlementTransferFrom { from, to: escrow, amount })
        },
{
    match check_user_allowance(allowance, amount) {
        Ok(()) => Ok(LedgerCall::SettlementTransferFrom { from, to: escrow, amount }),
        Err(e) => Err(e),
    }
}

/// The transfer of `amount` of settlement currency from escrow to `to`.
pub fn send_ckusdc_to_user(to: PrincipalId, amount: u64) -> (call: LedgerCall)
    ensures
        call == (LedgerCall::SettlementTransfer { to, amount }),
{
    LedgerCall::SettlementTransfer { to, amount }
}

/// The question for the settlement currency balance of `account`.
pub fn get_ckusdc_balance(account: PrincipalId) -> (call: LedgerCall)
    ensures
        call == (LedgerCall::SettlementBalance { account }),
{
    LedgerCall::SettlementBalance { account }
}

} // verus!
