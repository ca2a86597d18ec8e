//! What only the administrator may change.

use vstd::prelude::*;
use crate::error::Error;
use crate::memory::{GlobalState, DEFAULT_PLATFORM_FEE_BPS, MAX_FEE_BPS};
use crate::principal::PrincipalId;
use crate::types::{CanisterStatus, MemoryUsage};

verus! {

/// Whether `caller` is the administrator.
pub open spec fn admin_is(state: GlobalState, caller: PrincipalId) -> bool {
    state.admin_principal == Some(caller)
}

/// Whether `caller` is the administrator. Nobody is while none is set.
pub fn is_admin(state: &GlobalState, caller: &PrincipalId) -> (r: bool)
    ensures
        r == admin_is(*state, *caller),
{
    match &state.admin_principal {
        Some(admin) => admin.same_as(caller),
        None => false,
    }
}

/// The caller, where it is the administrator.
pub fn require_admin(state: &GlobalState, caller: &PrincipalId) -> (r: Result<PrincipalId, Error>)
    ensures
        r == if admin_is(*state, *caller) {
            Ok::<PrincipalId, Error>(*caller)
        } else {
            Err::<PrincipalId, Error>(Error::NotAdmin)
        },
{
    if is_admin(state, caller) {
        Ok(*caller)
    } else {
        Err(Error::NotAdmin)
    }
}

/// The administrator, if one is set.
pub fn get_admin(state: &GlobalState) -> (r: Option<PrincipalId>)
    ensures
        r == state.admin_principal,
{
    state.admin_principal
}

/// Hands the administration to `new_admin`. Only the administrator may.
pub fn set_admin(state: &mut GlobalState, caller: &PrincipalId, new_admin: PrincipalId) -> (r: Result<(), Error>)
    ensures
        admin_is(*old(state), *caller) ==> r == Ok::<(), Error>(()) && *final(state) == (GlobalState {
            admin_principal: Some(new_admin),
            ..*old(state)
        }),
        !admin_is(*old(state), *caller) ==> r == Err::<(), Error>(Error::NotAdmin) && *final(state) == *old(
            state,
        ),
{
    if !is_admin(state, caller) {
        return Err(Error::NotAdmin);
    }
    state.admin_principal = Some(new_admin);
    Ok(())
}

/// Sets the coordinator's service identity. Only the administrator may.
pub fn set_quote_api_principal(state: &mut GlobalState, caller: &PrincipalId, quote_api: PrincipalId) -> (r:
    Result<(), Error>)
    ensures
        admin_is(*old(state), *caller) ==> r == Ok::<(), Error>(()) && *final(state) == (GlobalState {
            quote_service_principal: Some(quote_api),
            ..*old(state)
        }),
        !admin_is(*old(state), *caller) ==> r == Err::<(), Error>(Error::NotAdmin) && *final(state) == *old(
            state,
        ),
{
    if !is_admin(state, caller) {
        return Err(Error::NotAdmin);
    }
    state.quote_service_principal = Some(quote_api);
    Ok(())
}

/// Sets where platform fees are paid. Only the administrator may.
pub fn set_platform_treasury(state: &mut GlobalState, caller: &PrincipalId, treasury: PrincipalId) -> (r: Result<
    (),
    Error,
>)
    ensures
        admin_is(*old(state), *caller) ==> r == Ok::<(), Error>(()) && *final(state) == (GlobalState {
            platform_treasury: Some(treasury),
            ..*old(state)
        }),
        !admin_is(*old(state), *caller) ==> r == Err::<(), Error>(Error::NotAdmin) && *final(state) == *old(
            state,
        ),
{
    if !is_admin(state, caller) {
        return Err(Error::NotAdmin);
    }
    state.platform_treasury = Some(treasury);
    Ok(())
}

/// Where platform fees are paid, if that is set.
pub fn get_platform_treasury(state: &GlobalState) -> (r: Option<PrincipalId>)
    ensures
        r == state.platform_treasury,
{
    state.platform_treasury
}

/// Sets the platform fee of bundles that have none of their own, in basis
/// points. Only the administrator may, and the fee is at most 10000.
pub fn set_default_platform_fee_bps(state: &mut GlobalState, caller: &PrincipalId, fee_bps: u64) -> (r: Result<
    (),
    Error,
>)
    ensures
        r == if !admin_is(*old(state), *caller) {
            Err::<(), Error>(Error::NotAdmin)
        } else if fee_bps > MAX_FEE_BPS {
            Err::<(), Error>(Error::FeeTooHigh)
        } else {
            Ok::<(), Error>(())
        },
        *final(state) == if r is Ok {
            GlobalState { default_platform_fee_bps: Some(fee_bps), ..*old(state) }
        } else {
            *old(state)
        },
{
    if !is_admin(state, caller) {
        return Err(Error::NotAdmin);
    }
    if fee_bps > MAX_FEE_BPS {
        return Err(Error::FeeTooHigh);
    }
    state.default_platform_fee_bps = Some(fee_bps);
    Ok(())
}

/// The platform fee of bundles that have none of their own: 50 basis
/// points unless another is set.
pub fn get_default_platform_fee_bps(state: &GlobalState) -> (r: u64)
    ensures
        r == match state.default_platform_fee_bps {
            Some(bps) => bps,
            None => DEFAULT_PLATFORM_FEE_BPS,
        },
{
    match state.default_platform_fee_bps {
        Some(bps) => bps,
        None => DEFAULT_PLATFORM_FEE_BPS,
    }
}

/// Pauses the engine in an emergency. Only the administrator may; the
/// pause itself is the caller's to carry out.
pub fn emergency_pause_canister(state: &GlobalState, caller: &PrincipalId) -> (r: Result<(), Error>)
    ensures
        r == if admin_is(*state, *caller) {
            Ok::<(), Error>(())
        } else {
            Err::<(), Error>(Error::NotAdmin)
        },
{
    if is_admin(state, caller) {
        Ok(())
    } else {
        Err(Error::NotAdmin)
    }
}

/// Ends an emergency pause. Only the administrator may.
pub fn emergency_unpause_canister(state: &GlobalState, caller: &PrincipalId) -> (r: Result<(), Error>)
    ensures
        r == if admin_is(*state, *caller) {
            Ok::<(), Error>(())
        } else {
            Err::<(), Error>(Error::NotAdmin)
        },
{
    if is_admin(state, caller) {
        Ok(())
    } else {
        Err(Error::NotAdmin)
    }
}

/// What an operator sees of the engine, from the counts of its catalogs.
pub fn get_canister_status(state: &GlobalState, total_assets: u64, total_bundles: u64, total_nav_tokens: u64) -> (r:
    CanisterStatus)
    ensures
        r == (CanisterStatus {
            is_admin_set: state.admin_principal is Some,
            total_assets,
            total_bundles,
            total_nav_tokens,
            memory_usage: MemoryUsage {
                asset_registry_entries: total_assets,
                bundle_storage_entries: total_bundles,
                nav_token_storage_entries: 0,
            },
        }),
{
    CanisterStatus {
        is_admin_set: state.admin_principal.is_some(),
        total_assets,
        total_bundles,
        total_nav_tokens,
        memory_usage: MemoryUsage {
            asset_registry_entries: total_assets,
            bundle_storage_entries: total_bundles,
            nav_token_storage_entries: 0,
        },
    }
}

/// What an administrator did, for the audit trail.
#[derive(Clone, Debug)]
pub struct AdminAction {
    pub action_type: String,
    pub target: String,
    pub admin: PrincipalId,
    pub timestamp: u64,
    pub details: Option<String>,
}

} // verus!
