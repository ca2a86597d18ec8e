//! The engine's configuration: one explicit value that the components
//! which need it are handed.

use vstd::prelude::*;
use crate::principal::PrincipalId;

verus! {

/// The basis points of the platform fee where none is configured.
pub const DEFAULT_PLATFORM_FEE_BPS: u64 = 50;

/// The largest fee in basis points: the whole amount.
pub const MAX_FEE_BPS: u64 = 10_000;

/// The configuration and the id counters.
#[derive(Debug)]
pub struct GlobalState {
    pub version: u32,
    pub bundle_counter: u64,
    pub quote_counter: u64,
    pub transaction_counter: u64,
    pub admin_principal: Option<PrincipalId>,
    pub quote_service_principal: Option<PrincipalId>,
    pub icrc151_ledger: Option<PrincipalId>,
    pub icrc2_ckusdc_ledger: Option<PrincipalId>,
    pub platform_treasury: Option<PrincipalId>,
    pub default_platform_fee_bps: Option<u64>,
    pub coordinator_public_key: Option<Vec<u8>>,
}

impl Default for GlobalState {
    fn default() -> (s: GlobalState)
        ensures
            s.version == 1,
            s.bundle_counter == 0,
            s.quote_counter == 0,
            s.transaction_counter == 0,
            s.admin_principal is None,
            s.quote_service_principal is None,
            s.icrc151_ledger is None,
            s.icrc2_ckusdc_ledger is None,
            s.platform_treasury is None,
            s.default_platform_fee_bps is None,
            s.coordinator_public_key is None,
    {
        GlobalState {
            version: 1,
            bundle_counter: 0,
            quote_counter: 0,
            transaction_counter: 0,
            admin_principal: None,
            quote_service_principal: None,
            icrc151_ledger: None,
            icrc2_ckusdc_ledger: None,
            platform_treasury: None,
            default_platform_fee_bps: None,
            coordinator_public_key: None,
        }
    }
}

/// Hands out the next bundle id: the ids are 0, 1, 2 and so on.
pub fn get_next_bundle_id(state: &mut GlobalState) -> (id: u64)
    requires
        old(state).bundle_counter < u64::MAX,
    ensures
        id == old(state).bundle_counter,
        *final(state) == (GlobalState { bundle_counter: (id + 1) as u64, ..*old(state) }),
{
    let id = state.bundle_counter;
    state.bundle_counter = id + 1;
    id
}

/// Hands out the next quote id: the ids are 0, 1, 2 and so on.
pub fn get_next_quote_id(state: &mut GlobalState) -> (id: u64)
    requires
        old(state).quote_counter < u64::MAX,
    ensures
        id == old(state).quote_counter,
        *final(state) == (GlobalState { quote_counter: (id + 1) as u64, ..*old(state) }),
{
    let id = state.quote_counter;
    state.quote_counter = id + 1;
    id
}

/// Hands out the next transaction id: the ids are 0, 1, 2 and so on.
pub fn get_next_transaction_id(state: &mut GlobalState) -> (id: u64)
    requires
        old(state).transaction_counter < u64::MAX,
    ensures
        id == old(state).transaction_counter,
        *final(state) == (GlobalState { transaction_counter: (id + 1) as u64, ..*old(state) }),
{
    let id = state.transaction_counter;
    state.transaction_counter = id + 1;
    id
}

/// The administrator, if one is set.
pub fn get_admin_principal(state: &GlobalState) -> (r: Option<PrincipalId>)
    ensures
        r == state.admin_principal,
{
    state.admin_principal
}

/// Sets the administrator.
pub fn set_admin_principal(state: &mut GlobalState, principal: PrincipalId)
    ensures
        *final(state) == (GlobalState { admin_principal: Some(principal), ..*old(state) }),
{
    state.admin_principal = Some(principal);
}

/// The ledger of the basket assets and bundle tokens, if one is set.
pub fn get_icrc151_ledger(state: &GlobalState) -> (r: Option<PrincipalId>)
    ensures
        r == state.icrc151_ledger,
{
    state.icrc151_ledger
}

/// Sets the ledger of the basket assets and bundle tokens.
pub fn set_icrc151_ledger(state: &mut GlobalState, principal: PrincipalId)
    ensures
        *final(state) == (GlobalState { icrc151_ledger: Some(principal), ..*old(state) }),
{
    state.icrc151_ledger = Some(principal);
}

/// The ledger of the settlement currency, if one is set.
pub fn get_icrc2_ckusdc_ledger(state: &GlobalState) -> (r: Option<PrincipalId>)
    ensures
        r == state.icrc2_ckusdc_ledger,
{
    state.icrc2_ckusdc_ledger
}

/// Sets the ledger of the settlement currency.
pub fn set_icrc2_ckusdc_ledger(state: &mut GlobalState, principal: PrincipalId)
    ensures
        *final(state) == (GlobalState { icrc2_ckusdc_ledger: Some(principal), ..*old(state) }),
{
    state.icrc2_ckusdc_ledger = Some(principal);
}

/// The coordinator's service identity, if one is set.
pub fn get_quote_service_principal(state: &GlobalState) -> (r: Option<PrincipalId>)
    ensures
        r == state.quote_service_principal,
{
    state.quote_service_principal
}

/// Sets the coordinator's service identity.
pub fn set_quote_service_principal(state: &mut GlobalState, principal: PrincipalId)
    ensures
        *final(state) == (GlobalState { quote_service_principal: Some(principal), ..*old(state) }),
{
    state.quote_service_principal = Some(principal);
}

} // verus!
