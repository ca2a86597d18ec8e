//! The calls that the engine asks its caller to make on the ledgers, and
//! what it makes of their answers.
//!
//! The settlement ledger holds the settlement currency alone. A token
//! ledger holds several tokens: the basket assets and the bundle tokens.
//! Every call carries a memo that names the transaction.

use vstd::prelude::*;
use vstd::string::StringExecFns;
use crate::error::Error;
use crate::icrc151_client;
use crate::icrc2_client;
use crate::principal::PrincipalId;
use crate::text::{decimal_bytes, push_decimal_bytes, push_text, utf8};
use crate::types::{AssetId, TokenLocation};

verus! {

/// One call on a ledger.
#[derive(Clone, Copy, Debug, PartialEq, Eq)]
pub enum LedgerCall {
    /// Move settlement currency from the engine's account to `to`.
    SettlementTransfer { to: PrincipalId, amount: u64 },
    /// Pull settlement currency that `from` has approved into `to`.
    SettlementTransferFrom { from: PrincipalId, to: PrincipalId, amount: u64 },
    /// Ask how much settlement currency `owner` lets `spender` pull.
    SettlementAllowance { owner: PrincipalId, spender: PrincipalId },
    /// Ask for the settlement currency balance of `account`.
    SettlementBalance { account: PrincipalId },
    /// Pull tokens that `from` has approved into `to`.
    TokenTransferFrom { token: TokenLocation, from: PrincipalId, to: PrincipalId, amount: u64 },
    /// Move tokens from the engine's account to `to`.
    TokenTransfer { token: TokenLocation, to: PrincipalId, amount: u64 },
    /// Create tokens for `to`.
    TokenMint { token: TokenLocation, to: PrincipalId, amount: u64 },
    /// Destroy tokens of `from`.
    TokenBurn { token: TokenLocation, from: PrincipalId, amount: u64 },
    /// Ask how many tokens `owner` lets `spender` pull.
    TokenAllowance { token: TokenLocation, owner: PrincipalId, spender: PrincipalId },
    /// Ask for the token balance of `account`.
    TokenBalance { token: TokenLocation, account: PrincipalId },
    /// Ask for the number of tokens that exist.
    TokenSupply { token: TokenLocation },
}

/// A call with its memo.
#[derive(Debug)]
pub struct LedgerRequest {
    pub call: LedgerCall,
    pub memo: Vec<u8>,
}

/// The bytes of a memo: a text, the transaction id, a text, a number if
/// there is one, a text, an asset's name if there is one, and a text.
pub open spec fn memo_bytes(
    head: Seq<char>,
    transaction_id: u64,
    middle: Seq<char>,
    number: Option<u64>,
    separator: Seq<char>,
    asset: Option<Seq<char>>,
    tail: Seq<char>,
) -> Seq<u8> {
    utf8(head) + decimal_bytes(transaction_id as nat) + utf8(middle) + (match number {
        Some(n) => decimal_bytes(n as nat),
        None => Seq::<u8>::empty(),
    }) + utf8(separator) + (match asset {
        Some(name) => utf8(name),
        None => Seq::<u8>::empty(),
    }) + utf8(tail)
}

/// Builds a memo.
pub fn memo(
    head: &str,
    transaction_id: u64,
    middle: &str,
    number: Option<u64>,
    separator: &str,
    asset: Option<&AssetId>,
    tail: &str,
) -> (out: Vec<u8>)
    ensures
        out@ == memo_bytes(
            head@,
            transaction_id,
            middle@,
            number,
            separator@,
            match asset {
                Some(a) => Some(a@),
                None => None,
            },
            tail@,
        ),
{
    let mut out: Vec<u8> = Vec::new();
    push_text(&mut out, head);
    push_decimal_bytes(&mut out, transaction_id);
    push_text(&mut out, middle);
    match number {
        Some(n) => {
            push_decimal_bytes(&mut out, n);
        },
        None => {},
    }
    push_text(&mut out, separator);
    match asset {
        Some(a) => {
            push_text(&mut out, a.0.as_str());
        },
        None => {},
    }
    push_text(&mut out, tail);
    assert(out@ =~= memo_bytes(
        head@,
        transaction_id,
        middle@,
        number,
        separator@,
        match asset {
            Some(a) => Some(a@),
            None => None,
        },
        tail@,
    ));
    out
}

/// The memo that names a transaction after a text.
pub open spec fn plain_memo(head: Seq<char>, transaction_id: u64) -> Seq<u8> {
    memo_bytes(head, transaction_id, ""@, None, ""@, None, ""@)
}

/// What a ledger answered: a number, or why the call failed.
pub open spec fn reply_value(reply: Result<u64, String>) -> Result<u64, Error> {
    match reply {
        Ok(v) => Ok(v),
        Err(reason) => Err(Error::LedgerCallFailed { reason }),
    }
}

/// Turns a ledger's answer into the engine's result.
pub fn read_reply(reply: Result<u64, String>) -> (r: Result<u64, Error>)
    ensures
        r == reply_value(reply),
{
    match reply {
        Ok(v) => Ok(v),
        Err(reason) => Err(Error::LedgerCallFailed { reason }),
    }
}

/// The arguments of a call as the ledger takes them.
#[derive(Debug)]
pub enum WireArgs {
    Transfer(icrc2_client::TransferArgs),
    TransferFrom(icrc2_client::TransferFromArgs),
    Allowance(icrc2_client::AllowanceArgs),
    Balance(icrc2_client::Account),
    TokenTransferFrom(icrc151_client::TransferFromArgs),
    TokenTransfer(icrc151_client::TransferArgs),
    TokenMint(icrc151_client::SupplyArgs),
    TokenBurn(icrc151_client::SupplyArgs),
    TokenAllowance(Vec<u8>, icrc151_client::Account, icrc151_client::Account),
    TokenBalance(Vec<u8>, icrc151_client::Account),
    TokenSupply(Vec<u8>),
}

/// A call as it goes over the wire: the ledger, the method and the
/// arguments.
#[derive(Debug)]
pub struct WireCall {
    pub ledger: PrincipalId,
    pub method: String,
    pub args: WireArgs,
}

/// The ledger that a call goes to: the settlement ledger, or the ledger of
/// the token.
pub open spec fn ledger_of(call: LedgerCall, settlement_ledger: PrincipalId) -> PrincipalId {
    match call {
        LedgerCall::SettlementTransfer { .. } => settlement_ledger,
        LedgerCall::SettlementTransferFrom { .. } => settlement_ledger,
        LedgerCall::SettlementAllowance { .. } => settlement_ledger,
        LedgerCall::SettlementBalance { .. } => settlement_ledger,
        LedgerCall::TokenTransferFrom { token, .. } => token.ledger,
        LedgerCall::TokenTransfer { token, .. } => token.ledger,
        LedgerCall::TokenMint { token, .. } => token.ledger,
        LedgerCall::TokenBurn { token, .. } => token.ledger,
        LedgerCall::TokenAllowance { token, .. } => token.ledger,
        LedgerCall::TokenBalance { token, .. } => token.ledger,
        LedgerCall::TokenSupply { token } => token.ledger,
    }
}

/// The name of the method that a call invokes.
pub open spec fn method_of(call: LedgerCall) -> Seq<char> {
    match call {
        LedgerCall::SettlementTransfer { .. } => "icrc1_transfer"@,
        LedgerCall::SettlementTransferFrom { .. } => "icrc2_transfer_from"@,
        LedgerCall::SettlementAllowance { .. } => "icrc2_allowance"@,
        LedgerCall::SettlementBalance { .. } => "icrc1_balance_of"@,
        LedgerCall::TokenTransferFrom { .. } => "icrc151_transfer_from"@,
        LedgerCall::TokenTransfer { .. } => "icrc151_transfer"@,
        LedgerCall::TokenMint { .. } => "mint_tokens"@,
        LedgerCall::TokenBurn { .. } => "burn_tokens_from"@,
        LedgerCall::TokenAllowance { .. } => "icrc2_allowance"@,
        LedgerCall::TokenBalance { .. } => "icrc1_balance_of"@,
        LedgerCall::TokenSupply { .. } => "get_total_supply"@,
    }
}

/// Whether the arguments are those of the call with this memo, made at
/// `now`: the accounts are main accounts, no fee is named, a transfer
/// carries the memo, and a transfer on the settlement ledger is stamped
/// with the time.
pub open spec fn carries(args: WireArgs, call: LedgerCall, memo: Seq<u8>, now: u64) -> bool {
    match call {
        LedgerCall::SettlementTransfer { to, amount } => args matches WireArgs::Transfer(a) && a.from_subaccount
            is None && a.to == icrc2_client::main_account(to) && a.amount == amount && a.fee is None && a.memo
            is Some && a.memo->Some_0@ == memo && a.created_at_time == Some(now),
        LedgerCall::SettlementTransferFrom { from, to, amount } => args matches WireArgs::TransferFrom(a)
            && a.spender_subaccount is None && a.from == icrc2_client::main_account(from) && a.to
            == icrc2_client::main_account(to) && a.amount == amount && a.fee is None && a.memo is Some
            && a.memo->Some_0@ == memo && a.created_at_time == Some(now),
        LedgerCall::SettlementAllowance { owner, spender } => args matches WireArgs::Allowance(a) && a.account
            == icrc2_client::main_account(owner) && a.spender == icrc2_client::main_account(spender),
        LedgerCall::SettlementBalance { account } => args matches WireArgs::Balance(a) && a
            == icrc2_client::main_account(account),
        LedgerCall::TokenTransferFrom { token, from, to, amount } => args matches WireArgs::TokenTransferFrom(a)
            && a.token_id@ == token.token_id@ && a.spender_subaccount is None
            && icrc151_client::is_main_account(a.from, from) && icrc151_client::is_main_account(a.to, to)
            && a.amount == amount && a.fee is None && a.memo is Some && a.memo->Some_0@ == memo
            && a.created_at_time is None,
        LedgerCall::TokenTransfer { token, to, amount } => args matches WireArgs::TokenTransfer(a) && a.token_id@
            == token.token_id@ && a.from_subaccount is None && icrc151_client::is_main_account(a.to, to)
            && a.amount == amount && a.fee is None && a.memo is Some && a.memo->Some_0@ == memo
            && a.created_at_time is None,
        LedgerCall::TokenMint { token, to, amount } => args matches WireArgs::TokenMint(a) && a.token_id@
            == token.token_id@ && icrc151_client::is_main_account(a.account, to) && a.amount == amount && a.memo
            is Some && a.memo->Some_0@ == memo,
        LedgerCall::TokenBurn { token, from, amount } => args matches WireArgs::TokenBurn(a) && a.token_id@
            == token.token_id@ && icrc151_client::is_main_account(a.account, from) && a.amount == amount
            && a.memo is Some && a.memo->Some_0@ == memo,
        LedgerCall::TokenAllowance { token, owner, spender } => args matches WireArgs::TokenAllowance(t, a, b)
            && t@ == token.token_id@ && icrc151_client::is_main_account(a, owner)
            && icrc151_client::is_main_account(b, spender),
        LedgerCall::TokenBalance { token, account } => args matches WireArgs::TokenBalance(t, a) && t@
            == token.token_id@ && icrc151_client::is_main_account(a, account),
        LedgerCall::TokenSupply { token } => args matches WireArgs::TokenSupply(t) && t@ == token.token_id@,
    }
}

/// The call as it goes over the wire, when it is made at `now`.
pub fn wire_call(request: LedgerRequest, settlement_ledger: PrincipalId, now: u64) -> (wire: WireCall)
    ensures
        wire.ledger == ledger_of(request.call, settlement_ledger),
        wire.method@ == method_of(request.call),
        carries(wire.args, request.call, request.memo@, now),
{
    let LedgerRequest { call, memo } = request;
    match call {
        LedgerCall::SettlementTransfer { to, amount } => WireCall {
            ledger: settlement_ledger,
            method: String::from_str("icrc1_transfer"),
            args: WireArgs::Transfer(icrc2_client::icrc1_transfer(to, amount, Some(memo), now)),
        },
        LedgerCall::SettlementTransferFrom { from, to, amount } => WireCall {
            ledger: settlement_ledger,
            method: String::from_str("icrc2_transfer_from"),
            args: WireArgs::TransferFrom(icrc2_client::icrc2_transfer_from(from, to, amount, Some(memo), now)),
        },
        LedgerCall::SettlementAllowance { owner, spender } => WireCall {
            ledger: settlement_ledger,
            method: String::from_str("icrc2_allowance"),
            args: WireArgs::Allowance(icrc2_client::icrc2_allowance(owner, spender)),
        },
        LedgerCall::SettlementBalance { account } => WireCall {
            ledger: settlement_ledger,
            method: String::from_str("icrc1_balance_of"),
            args: WireArgs::Balance(icrc2_client::icrc1_balance_of(account)),
        },
        LedgerCall::TokenTransferFrom { token, from, to, amount } => WireCall {
            ledger: token.ledger,
            method: String::from_str("icrc151_transfer_from"),
            args: WireArgs::TokenTransferFrom(
                icrc151_client::transfer_from_icrc151(&token, from, to, amount, Some(memo)),
            ),
        },
        LedgerCall::TokenTransfer { token, to, amount } => WireCall {
            ledger: token.ledger,
            method: String::from_str("icrc151_transfer"),
            args: WireArgs::TokenTransfer(icrc151_client::transfer_icrc151(&token, to, amount, Some(memo))),
        },
        LedgerCall::TokenMint { token, to, amount } => WireCall {
            ledger: token.ledger,
            method: String::from_str("mint_tokens"),
            args: WireArgs::TokenMint(icrc151_client::mint_icrc151(&token, to, amount, Some(memo))),
        },
        LedgerCall::TokenBurn { token, from, amount } => WireCall {
            ledger: token.ledger,
            method: String::from_str("burn_tokens_from"),
            args: WireArgs::TokenBurn(icrc151_client::burn_icrc151(&token, from, amount, Some(memo))),
        },
        LedgerCall::TokenAllowance { token, owner, spender } => {
            let (t, a, b) = icrc151_client::get_allowance_icrc151(&token, owner, spender);
            WireCall {
                ledger: token.ledger,
                method: String::from_str("icrc2_allowance"),
                args: WireArgs::TokenAllowance(t, a, b),
            }
        },
        LedgerCall::TokenBalance { token, account } => {
            let (t, a) = icrc151_client::get_balance_icrc151(&token, account);
            WireCall {
                ledger: token.ledger,
                method: String::from_str("icrc1_balance_of"),
                args: WireArgs::TokenBalance(t, a),
            }
        },
        LedgerCall::TokenSupply { token } => WireCall {
            ledger: token.ledger,
            method: String::from_str("get_total_supply"),
            args: WireArgs::TokenSupply(icrc151_client::token_id_bytes(&token)),
        },
    }
}

} // verus!
