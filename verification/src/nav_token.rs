//! Bundle tokens. Their balances and supplies are kept on the token
//! ledger; the engine keeps none of its own and only says what to ask.

use vstd::prelude::*;
use vstd::string::StringExecFns;
use crate::bundle_manager::{bundle_of, has_bundle, BundleStore};
use crate::error::Error;
use crate::ledger::LedgerCall;
use crate::principal::{principal_text, PrincipalId};
use crate::text::{decimal_chars, push_decimal};
use crate::types::XFusionNAVToken;

verus! {

/// The call that asks for a user's balance of the tokens of a bundle.
pub fn get_user_nav_token_balance(bundles: &BundleStore, user: PrincipalId, bundle_id: u64) -> (r: Result<
    LedgerCall,
    Error,
>)
    requires
        bundles.wf(),
    ensures
        r == if has_bundle(bundles@, bundle_id) {
            Ok::<LedgerCall, Error>(
                LedgerCall::TokenBalance { token: bundle_of(bundles@, bundle_id).token_location, account: user },
            )
        } else {
            Err::<LedgerCall, Error>(Error::BundleNotFound { bundle_id })
        },
{
    match bundles.get_bundle(bundle_id) {
        Ok(bundle) => Ok(LedgerCall::TokenBalance { token: bundle.token_location, account: user }),
        Err(e) => Err(e),
    }
}

/// The call that asks for the number of tokens of a bundle.
pub fn get_total_tokens_for_bundle(bundles: &BundleStore, bundle_id: u64) -> (r: Result<LedgerCall, Error>)
    requires
        bundles.wf(),
    ensures
        r == if has_bundle(bundles@, bundle_id) {
            Ok::<LedgerCall, Error>(LedgerCall::TokenSupply { token: bundle_of(bundles@, bundle_id).token_location })
        } else {
            Err::<LedgerCall, Error>(Error::BundleNotFound { bundle_id })
        },
{
    match bundles.get_bundle(bundle_id) {
        Ok(bundle) => Ok(LedgerCall::TokenSupply { token: bundle.token_location }),
        Err(e) => Err(e),
    }
}

/// The call that asks for a user's balance of settlement currency.
pub fn get_user_ckusdc_balance(user: PrincipalId) -> (call: LedgerCall)
    ensures
        call == (LedgerCall::SettlementBalance { account: user }),
{
    LedgerCall::SettlementBalance { account: user }
}

/// The bundle tokens that the engine itself accounts for: none.
pub fn get_total_nav_token_supply() -> (supply: u64)
    ensures
        supply == 0,
{
    0
}

/// The holders of a bundle that the engine itself knows of: its creator.
pub fn get_bundle_holder_count(bundle_id: u64) -> (holders: u32)
    ensures
        holders == 1,
{
    1
}

/// The bundle tokens of a user that the engine itself accounts for: none.
pub fn get_user_nav_tokens(user: PrincipalId) -> (tokens: Vec<XFusionNAVToken>)
    ensures
        tokens@.len() == 0,
{
    Vec::new()
}

/// The key under which a user's tokens of a bundle are filed: the user's
/// textual form, a colon, and the bundle id.
pub fn nav_token_key(user: PrincipalId, bundle_id: u64) -> (key: String)
    ensures
        key@ == principal_text(user@) + ":"@ + decimal_chars(bundle_id as nat),
{
    let mut key = user.to_text();
    key.append(":");
    push_decimal(&mut key, bundle_id);
    key
}

} // verus!
