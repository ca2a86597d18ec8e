use xfusion_backend::admin::{
    emergency_pause_canister, get_admin, get_canister_status, get_default_platform_fee_bps, is_admin,
    require_admin, set_admin, set_default_platform_fee_bps, set_platform_treasury, set_quote_api_principal,
};
use xfusion_backend::asset_registry::AssetRegistry;
use xfusion_backend::bundle_manager::{validate_bundle_request, BundleStore};
use xfusion_backend::error::{Error, ErrorKind};
use xfusion_backend::holdings_tracker::{share_of, simulate_proportional_withdrawal, HoldingsTracker};
use xfusion_backend::icrc2_client::{
    approve_outcome, check_user_allowance, describe_transfer_error, icrc1_transfer, icrc2_approve,
    transfer_outcome, ApproveError, TransferError, CKUSDC_LEDGER_CANISTER,
};
use xfusion_backend::ledger::{wire_call, LedgerCall, LedgerRequest, WireArgs};
use xfusion_backend::memory::{
    get_next_bundle_id, get_next_quote_id, get_next_transaction_id, GlobalState,
};
use xfusion_backend::nav_calculator::{
    calculate_bundle_nav, calculate_nav_with_full_precision_report, calculate_total_supply_from_holders,
    get_portfolio_value, validate_total_supply_consistency, PricedAllocation, PricedHolding, ValuedPosition,
};
use xfusion_backend::nav_token::{
    get_bundle_holder_count, get_total_nav_token_supply, get_total_tokens_for_bundle,
    get_user_ckusdc_balance, get_user_nav_token_balance, get_user_nav_tokens, nav_token_key,
};
use xfusion_backend::oracle::{get_latest_price, OracleConfig, PriceCache, PriceLookup};
use xfusion_backend::principal::PrincipalId;
use xfusion_backend::query_api::{
    get_asset_summary, get_bundle_summary, get_canister_info, get_user_portfolio, search_assets,
    search_bundles,
};
use xfusion_backend::quote_manager::AssignmentStore;
use xfusion_backend::resolver_manager::ResolverRegistry;
use xfusion_backend::sell_transaction::{confirm_asset_liquidation, QuoteRequests};
use xfusion_backend::transaction_manager::TransactionManager;
use xfusion_backend::types::{
    Allowance, AssetAllocation, AssetAmount, AssetCategory, AssetFilter, AssetId, AssetInfo,
    AssetInfoUpdate, AssetMetadata, AssetStandard, AssetWithdrawal, LockedFundType, LockedFunds,
    OperationType, QuoteAssignment, QuoteRequest, TokenLocation, Transaction, TransactionStatus,
    XFusionNAVToken,
};

const NOW: u64 = 1_699_000_000_000_000_000;

fn p(tag: u8) -> PrincipalId {
    PrincipalId::from_slice(&[tag, 7]).unwrap()
}

fn id(name: &str) -> AssetId {
    AssetId(name.to_string())
}

fn asset(name: &str, standard: AssetStandard, category: AssetCategory, ticker: Option<&str>) -> AssetInfo {
    AssetInfo {
        id: id(name),
        symbol: name.to_uppercase(),
        name: format!("Chain Key {}", name),
        standard,
        ledger_canister: p(9),
        minter_canister: None,
        oracle_ticker: ticker.map(|t| t.to_string()),
        decimals: 8,
        is_active: true,
        added_at: NOW,
        metadata: AssetMetadata { logo_url: None, website: None, description: None, category },
    }
}

fn config() -> GlobalState {
    let mut state = GlobalState::default();
    state.admin_principal = Some(p(1));
    state
}

fn catalog() -> (GlobalState, AssetRegistry, BundleStore) {
    let mut state = config();
    let mut registry = AssetRegistry::new();
    registry
        .add_asset(
            &state,
            &p(1),
            asset("ckBTC", AssetStandard::ICRC151 { token_id: [1; 32] }, AssetCategory::Cryptocurrency, Some("BTC")),
        )
        .unwrap();
    registry
        .add_asset(&state, &p(1), asset("ckUSDC", AssetStandard::ICRC2, AssetCategory::Stablecoin, None))
        .unwrap();
    registry
        .add_asset(
            &state,
            &p(1),
            asset("GLDT", AssetStandard::MTLS { asset_id: 4 }, AssetCategory::Other("metal".to_string()), None),
        )
        .unwrap();
    let mut bundles = BundleStore::new();
    bundles
        .create_bundle(
            &mut state,
            &registry,
            "Digital Gold".to_string(),
            "DGLD".to_string(),
            Some("Bitcoin and bullion".to_string()),
            vec![
                AssetAllocation { asset_id: id("ckBTC"), percentage: 70 },
                AssetAllocation { asset_id: id("GLDT"), percentage: 30 },
            ],
            TokenLocation { ledger: p(9), token_id: [5; 32] },
            p(2),
            NOW,
        )
        .unwrap();
    (state, registry, bundles)
}

#[test]
fn identifiers_count_up_from_zero() {
    let mut state = GlobalState::default();
    assert_eq!(state.version, 1);
    assert_eq!(get_next_bundle_id(&mut state), 0);
    assert_eq!(get_next_bundle_id(&mut state), 1);
    assert_eq!(get_next_quote_id(&mut state), 0);
    assert_eq!(get_next_transaction_id(&mut state), 0);
    assert_eq!(get_next_transaction_id(&mut state), 1);
    assert_eq!((state.bundle_counter, state.quote_counter, state.transaction_counter), (2, 1, 2));
}

#[test]
fn only_the_administrator_configures() {
    let mut state = GlobalState::default();
    assert!(!is_admin(&state, &p(1)));
    assert!(matches!(require_admin(&state, &p(1)), Err(Error::NotAdmin)));
    state.admin_principal = Some(p(1));
    assert!(is_admin(&state, &p(1)));
    assert_eq!(require_admin(&state, &p(1)).unwrap(), p(1));
    assert!(matches!(set_admin(&mut state, &p(2), p(2)), Err(Error::NotAdmin)));
    assert_eq!(get_admin(&state), Some(p(1)));
    assert!(matches!(set_platform_treasury(&mut state, &p(2), p(3)), Err(Error::NotAdmin)));
    set_platform_treasury(&mut state, &p(1), p(3)).unwrap();
    assert_eq!(state.platform_treasury, Some(p(3)));
    set_quote_api_principal(&mut state, &p(1), p(4)).unwrap();
    assert_eq!(state.quote_service_principal, Some(p(4)));
    assert_eq!(get_default_platform_fee_bps(&state), 50);
    assert!(matches!(set_default_platform_fee_bps(&mut state, &p(1), 10_001), Err(Error::FeeTooHigh)));
    set_default_platform_fee_bps(&mut state, &p(1), 10_000).unwrap();
    assert_eq!(get_default_platform_fee_bps(&state), 10_000);
    assert!(emergency_pause_canister(&state, &p(1)).is_ok());
    assert_eq!(emergency_pause_canister(&state, &p(2)).unwrap_err().kind(), ErrorKind::Authorization);
    set_admin(&mut state, &p(1), p(2)).unwrap();
    assert!(!is_admin(&state, &p(1)));
    let status = get_canister_status(&state, 3, 1, 0);
    assert!(status.is_admin_set);
    assert_eq!(status.memory_usage.asset_registry_entries, 3);
}

#[test]
fn assets_are_registered_once_and_listed_by_filter() {
    let (state, mut registry, _) = catalog();
    assert_eq!(registry.get_asset_count(), 3);
    let again = asset("ckBTC", AssetStandard::ICRC2, AssetCategory::Stocks, None);
    assert_eq!(registry.add_asset(&state, &p(1), again).unwrap_err().message(), "Asset already exists: ckBTC");
    let other = asset("ckETH", AssetStandard::ICRC2, AssetCategory::Stocks, None);
    assert!(matches!(registry.add_asset(&state, &p(2), other), Err(Error::NotAdmin)));
    assert_eq!(registry.get_asset(&id("GLDT")).unwrap().symbol, "GLDT");
    assert_eq!(registry.get_asset(&id("nope")).unwrap_err().message(), "Asset not found: nope");
    let location = registry.get_asset_icrc151_location(&id("ckBTC")).unwrap();
    assert_eq!(location, TokenLocation { ledger: p(9), token_id: [1; 32] });
    assert!(matches!(registry.get_asset_icrc151_location(&id("ckUSDC")), Err(Error::NotMultiToken)));

    registry.deactivate_asset(&state, &p(1), &id("GLDT")).unwrap();
    assert_eq!(registry.list_assets(&None).len(), 3);
    let active = Some(AssetFilter { active_only: true, category: None, standard: None });
    assert_eq!(registry.list_assets(&active).len(), 2);
    let metals = Some(AssetFilter {
        active_only: false,
        category: Some(AssetCategory::Other("anything".to_string())),
        standard: None,
    });
    assert_eq!(registry.list_assets(&metals)[0].id, id("GLDT"));
    let tokens = Some(AssetFilter {
        active_only: false,
        category: None,
        standard: Some(AssetStandard::ICRC151 { token_id: [0; 32] }),
    });
    assert_eq!(registry.list_assets(&tokens)[0].id, id("ckBTC"));

    let update = AssetInfoUpdate {
        name: Some("Gold".to_string()),
        oracle_ticker: Some("GOLD".to_string()),
        minter_canister: None,
        is_active: Some(true),
        metadata: None,
    };
    registry.update_asset(&state, &p(1), &id("GLDT"), update).unwrap();
    let gold = registry.get_asset(&id("GLDT")).unwrap();
    assert_eq!((gold.name.as_str(), gold.oracle_ticker.as_deref(), gold.is_active), ("Gold", Some("GOLD"), true));
    registry
        .update_asset_token_location(&state, &p(1), &id("GLDT"), p(8), AssetStandard::ICRC151 { token_id: [3; 32] })
        .unwrap();
    assert_eq!(registry.get_asset_icrc151_location(&id("GLDT")).unwrap().ledger, p(8));
    assert!(registry.restore_asset(asset("ckBTC", AssetStandard::ICRC2, AssetCategory::Stocks, None)).is_err());
}

#[test]
fn bundles_are_created_from_registered_assets() {
    let (mut state, mut registry, mut bundles) = catalog();
    assert_eq!(bundles.get_bundle_count(), 1);
    let bundle = bundles.get_bundle(0).unwrap();
    assert_eq!(bundle.platform_fee_bps, Some(50));
    assert_eq!(bundle.creator, p(2));
    assert!(bundle.is_active);
    assert_eq!(bundles.get_bundle(1).unwrap_err().message(), "Bundle 1 not found");

    let short = vec![AssetAllocation { asset_id: id("ckBTC"), percentage: 99 }];
    match validate_bundle_request(&registry, &short) {
        Err(Error::TotalPercentage { got }) => assert_eq!(got, 99),
        other => panic!("unexpected {:?}", other),
    }
    let unknown = vec![AssetAllocation { asset_id: id("ckETH"), percentage: 100 }];
    assert!(matches!(validate_bundle_request(&registry, &unknown), Err(Error::AssetNotFound { .. })));
    registry.deactivate_asset(&state, &p(1), &id("GLDT")).unwrap();
    let inactive = vec![
        AssetAllocation { asset_id: id("ckBTC"), percentage: 50 },
        AssetAllocation { asset_id: id("GLDT"), percentage: 50 },
    ];
    assert_eq!(
        validate_bundle_request(&registry, &inactive).unwrap_err().message(),
        "Asset is not active: GLDT"
    );

    assert!(matches!(bundles.set_bundle_platform_fee(&state, &p(2), 0, 10), Err(Error::NotAdmin)));
    assert!(matches!(bundles.set_bundle_platform_fee(&state, &p(1), 0, 10_001), Err(Error::FeeTooHigh)));
    bundles.set_bundle_platform_fee(&state, &p(1), 0, 125).unwrap();
    assert_eq!(bundles.get_bundle(0).unwrap().platform_fee_bps, Some(125));
    assert_eq!(bundles.get_bundles_using_asset(&id("GLDT")), vec![0]);
    assert!(bundles.get_bundles_using_asset(&id("ckUSDC")).is_empty());
    assert_eq!(bundles.get_user_bundles(&p(2)).len(), 1);
    assert!(bundles.get_user_bundles(&p(1)).is_empty());

    assert_eq!(bundles.cleanup_inactive_bundles(&state, &p(1), 0, 0).unwrap(), false);
    bundles.force_deactivate_bundle(&state, &p(1), 0).unwrap();
    assert!(bundles.list_active_bundles().is_empty());
    assert_eq!(bundles.inactive_bundles(), vec![0]);
    assert_eq!(bundles.cleanup_inactive_bundles(&state, &p(1), 0, 1).unwrap(), false);
    assert_eq!(bundles.cleanup_inactive_bundles(&state, &p(1), 0, 0).unwrap(), true);
    assert_eq!(bundles.get_bundle_count(), 0);
    state.bundle_counter = 0;
    let recreated = bundles.create_bundle(
        &mut state,
        &registry,
        "x".to_string(),
        "X".to_string(),
        None,
        vec![AssetAllocation { asset_id: id("ckBTC"), percentage: 100 }],
        TokenLocation { ledger: p(9), token_id: [6; 32] },
        p(1),
        NOW,
    );
    assert_eq!(recreated.unwrap(), 0);
}

#[test]
fn holdings_change_and_are_withdrawn_in_proportion() {
    let mut holdings = HoldingsTracker::new();
    assert_eq!(holdings.get_bundle_holding(1, &id("ckBTC")), 0);
    holdings.update_bundle_holdings(1, &id("ckBTC"), 1_000, NOW).unwrap();
    holdings.update_bundle_holdings(1, &id("ckETH"), 3, NOW).unwrap();
    holdings.update_bundle_holdings(2, &id("ckBTC"), 50, NOW).unwrap();
    holdings.update_bundle_holdings(1, &id("ckBTC"), -400, NOW + 1).unwrap();
    assert_eq!(holdings.get_bundle_holding(1, &id("ckBTC")), 600);
    assert!(matches!(
        holdings.update_bundle_holdings(1, &id("ckBTC"), -601, NOW),
        Err(Error::InsufficientHoldings)
    ));
    assert!(matches!(holdings.update_bundle_holdings(3, &id("ckBTC"), -1, NOW), Err(Error::InsufficientHoldings)));
    assert!(matches!(
        holdings.adjust_holding(1, &id("ckBTC"), true, u64::MAX, NOW),
        Err(Error::HoldingsOverflow)
    ));
    assert!(matches!(
        holdings.update_bundle_holdings(1, &id("ckBTC"), i64::MIN, NOW),
        Err(Error::InsufficientHoldings)
    ));
    assert_eq!(holdings.get_all_bundle_holdings(1).len(), 2);
    assert_eq!(holdings.all_holdings().len(), 3);

    assert!(matches!(holdings.calculate_proportional_withdrawal(1, 1, 0), Err(Error::NoTokensIssued)));
    assert!(matches!(holdings.calculate_proportional_withdrawal(1, 11, 10), Err(Error::RedeemExceedsSupply)));
    let withdrawals = holdings.calculate_proportional_withdrawal(1, 1, 10).unwrap();
    assert_eq!(withdrawals.len(), 1);
    assert_eq!(withdrawals[0].asset_id, id("ckBTC"));
    assert_eq!((withdrawals[0].amount, withdrawals[0].remaining_in_bundle), (60, 540));
    assert_eq!(share_of(3, 1, 10), 0);
    assert_eq!(share_of(u64::MAX, u64::MAX, u64::MAX), u64::MAX);

    match holdings.execute_proportional_withdrawal(1, 0, 1, 10, NOW) {
        Err(Error::InsufficientTokenBalance { bundle_id, required, available }) => {
            assert_eq!((bundle_id, required, available), (1, 1, 0));
        }
        other => panic!("unexpected {:?}", other),
    }
    let taken = holdings.execute_proportional_withdrawal(1, 5, 5, 10, NOW + 2).unwrap();
    assert_eq!(taken.iter().map(|w| w.amount).collect::<Vec<_>>(), vec![300, 1]);
    assert_eq!(holdings.get_bundle_holding(1, &id("ckBTC")), 300);
    assert_eq!(holdings.get_bundle_holding(1, &id("ckETH")), 2);
    assert_eq!(holdings.get_bundle_holding(2, &id("ckBTC")), 50);
    holdings.execute_proportional_withdrawal(1, 10, 10, 10, NOW + 3).unwrap();
    assert!(holdings.get_all_bundle_holdings(1).is_empty());
    holdings.update_bundle_holdings(2, &id("ckBTC"), -50, NOW).unwrap();
    assert!(holdings.all_holdings().is_empty());

    let withdrawn = vec![
        AssetWithdrawal { asset_id: id("a"), amount: 250_000_000, remaining_in_bundle: 0 },
        AssetWithdrawal { asset_id: id("b"), amount: 7, remaining_in_bundle: 0 },
        AssetWithdrawal { asset_id: id("c"), amount: u64::MAX, remaining_in_bundle: 0 },
    ];
    let (breakdown, total) = simulate_proportional_withdrawal(&withdrawn, &vec![Some(3_00000000), None, Some(2)]);
    assert_eq!(breakdown.len(), 2);
    assert_eq!(breakdown[0].estimated_usd_value, 750_000_000);
    assert_eq!(breakdown[1].estimated_usd_value, 0);
    assert_eq!(total, 750_000_000);
}

#[test]
fn cached_prices_are_served_while_they_are_fresh() {
    let (state, registry, _) = catalog();
    let mut cache = PriceCache::new();
    match get_latest_price(&cache, &registry, &id("ckBTC"), NOW).unwrap() {
        PriceLookup::Fetch { ticker } => assert_eq!(ticker, "BTC"),
        other => panic!("unexpected {:?}", other),
    }
    assert_eq!(
        get_latest_price(&cache, &registry, &id("ckUSDC"), NOW).unwrap_err().message(),
        "No oracle ticker configured for asset ckUSDC"
    );
    assert!(matches!(get_latest_price(&cache, &registry, &id("x"), NOW), Err(Error::AssetNotFound { .. })));

    cache.record_price(&id("ckBTC"), 65_000_00000000, NOW);
    let minute = 60_000_000_000u64;
    match get_latest_price(&cache, &registry, &id("ckBTC"), NOW + minute - 1).unwrap() {
        PriceLookup::Cached { price_usd, timestamp } => assert_eq!((price_usd, timestamp), (65_000_00000000, NOW)),
        other => panic!("unexpected {:?}", other),
    }
    assert!(matches!(
        get_latest_price(&cache, &registry, &id("ckBTC"), NOW + minute).unwrap(),
        PriceLookup::Fetch { .. }
    ));
    assert!(cache.get_cached_price_if_valid(&id("ckBTC"), NOW - 5).is_some());
    assert_eq!(cache.get_cached_price(&id("ckBTC")).unwrap().source, "xfusion_oracle");
    assert!(cache.get_cached_price(&id("ckETH")).is_none());
    assert!(!cache.is_price_stale(&id("ckBTC"), None, NOW + 5 * minute));
    assert!(cache.is_price_stale(&id("ckBTC"), None, NOW + 5 * minute + 1));
    assert!(cache.is_price_stale(&id("ckBTC"), Some(10), NOW + 11));
    assert!(cache.is_price_stale(&id("ckETH"), None, NOW));

    cache.record_price(&id("ckETH"), 3_500_00000000, NOW + minute);
    cache.record_price(&id("ckBTC"), 66_000_00000000, NOW + 2 * minute);
    assert_eq!(cache.get_cached_price(&id("ckBTC")).unwrap().price_usd, 66_000_00000000);
    assert_eq!(cache.refresh_expired_prices(NOW + 2 * minute + 1), vec![id("ckETH")]);
    let stats = cache.get_cache_statistics(NOW + 2 * minute + 1);
    assert_eq!((stats.total_entries, stats.valid_entries, stats.expired_entries), (2, 1, 1));
    assert_eq!(stats.oldest_entry_age_seconds, 60);
    assert_eq!(stats.cache_duration_seconds, 60);

    let custom = OracleConfig { oracle_canister: p(3), cache_duration_ns: 10, max_staleness_ns: 20, fallback_enabled: false };
    assert!(matches!(cache.set_oracle_config(&state, &p(2), custom), Err(Error::NotAdmin)));
    cache.set_oracle_config(&state, &p(1), custom).unwrap();
    assert_eq!(cache.get_oracle_config().unwrap().cache_duration_ns, 10);
    assert!(cache.get_cached_price_if_valid(&id("ckBTC"), NOW + 2 * minute + 10).is_none());
    assert!(cache.get_cached_price_if_valid(&id("ckBTC"), NOW + 2 * minute + 9).is_some());
    assert!(matches!(cache.clear_price_cache(&state, &p(2)), Err(Error::NotAdmin)));
    assert_eq!(cache.clear_price_cache(&state, &p(1)).unwrap(), 2);
    assert!(cache.get_cached_price(&id("ckBTC")).is_none());

    assert_eq!(xfusion_backend::oracle::adjust_price_for_decimals(1_00000000, 6), 100_00000000);
    assert_eq!(xfusion_backend::oracle::adjust_price_for_decimals(1_00000000, 10), 1_000000);
    assert_eq!(xfusion_backend::oracle::adjust_price_for_decimals(u64::MAX, 0), u64::MAX);
    assert_eq!(xfusion_backend::oracle::adjust_price_for_decimals(u64::MAX, 200), 0);
}

#[test]
fn resolvers_are_registered_by_the_administrator() {
    let state = config();
    let mut resolvers = ResolverRegistry::new();
    assert!(matches!(
        resolvers.register_resolver_admin(&state, &p(2), p(5), "r".to_string(), 10, NOW),
        Err(Error::NotAdmin)
    ));
    assert_eq!(
        resolvers.register_resolver_admin(&state, &p(1), p(5), "r".to_string(), 1001, NOW).unwrap_err().message(),
        "Fee rate too high (max 10%)"
    );
    resolvers.register_resolver_admin(&state, &p(1), p(5), "five".to_string(), 1000, NOW).unwrap();
    resolvers.register_resolver(&state, &p(1), "admin".to_string(), 0, NOW).unwrap();
    assert!(matches!(
        resolvers.register_resolver_admin(&state, &p(1), p(5), "again".to_string(), 1, NOW),
        Err(Error::ResolverExists)
    ));
    assert!(resolvers.is_resolver_registered(&p(5)));
    assert!(!resolvers.is_resolver_registered(&p(6)));
    assert!(resolvers.is_resolver_active(&p(5)));
    assert!(matches!(resolvers.update_resolver_status(&state, &p(6), &p(5), false, NOW), Err(Error::NotAdmin)));
    resolvers.update_resolver_status(&state, &p(5), &p(5), false, NOW + 1).unwrap();
    assert!(!resolvers.is_resolver_active(&p(5)));
    assert_eq!(resolvers.get_active_resolvers(), vec![p(1)]);
    assert!(matches!(resolvers.update_resolver_status(&state, &p(1), &p(6), true, NOW), Err(Error::ResolverNotFound)));
    resolvers.update_resolver_performance(&p(5), true, 700, NOW + 2).unwrap();
    resolvers.update_resolver_performance(&p(5), false, u64::MAX, NOW + 3).unwrap();
    resolvers.update_resolver_performance(&p(1), true, 5, NOW + 3).unwrap();
    assert!(matches!(resolvers.update_resolver_performance(&p(6), true, 1, NOW), Err(Error::ResolverNotFound)));
    let five = resolvers.get_resolver(&p(5)).unwrap();
    assert_eq!((five.successful_transactions, five.failed_transactions), (1, 1));
    assert_eq!(five.total_volume_processed, u64::MAX);
    assert_eq!(five.last_active, NOW + 3);
    let stats = resolvers.get_resolver_statistics();
    assert_eq!((stats.total_resolvers, stats.active_resolvers), (2, 1));
    assert_eq!(stats.total_volume_processed, u64::MAX);
    assert_eq!(stats.total_transactions, 3);
    assert_eq!(resolvers.len(), 2);
    assert_eq!(resolvers.get_at(1).name, "admin");
}

#[test]
fn bundle_value_is_the_sum_of_its_holdings() {
    let holdings = vec![
        PricedHolding { asset_id: id("ckBTC"), amount: 100_000_000, price_usd: 100_000_00000000, decimals: 8 },
        PricedHolding { asset_id: id("ckETH"), amount: 250_000_000_000_000_000, price_usd: 4_000_00000000, decimals: 18 },
    ];
    let nav = calculate_bundle_nav(3, true, 1000, &holdings, NOW).unwrap();
    assert_eq!(nav.total_nav_usd, 101_000_00000000);
    assert_eq!(nav.nav_per_token, 101_00000000);
    assert_eq!(nav.asset_values[0].value_usd, 100_000_00000000);
    assert_eq!(nav.asset_values[0].share_bps, 9900);
    assert_eq!(nav.asset_values[1].share_bps, 99);
    assert_eq!((nav.bundle_id, nav.total_tokens, nav.calculated_at), (3, 1000, NOW));
    assert!(matches!(calculate_bundle_nav(3, false, 1000, &holdings, NOW), Err(Error::BundleInactive)));
    let empty = calculate_bundle_nav(3, true, 0, &holdings, NOW).unwrap();
    assert_eq!((empty.nav_per_token, empty.total_nav_usd, empty.asset_values.len()), (0, 0, 0));
    let bad = vec![PricedHolding { asset_id: id("x"), amount: 1, price_usd: 1, decimals: 19 }];
    assert!(matches!(calculate_bundle_nav(3, true, 1, &bad, NOW), Err(Error::InvalidDecimals)));
    let huge = vec![
        PricedHolding { asset_id: id("x"), amount: u64::MAX, price_usd: 1, decimals: 0 },
        PricedHolding { asset_id: id("y"), amount: 1, price_usd: 1, decimals: 0 },
    ];
    assert!(matches!(calculate_bundle_nav(3, true, 1, &huge, NOW), Err(Error::ValueOverflow)));

    let consistent = validate_total_supply_consistency(1, 10, 10, NOW);
    assert!(consistent.is_consistent);
    let off = validate_total_supply_consistency(1, 7, 10, NOW);
    assert_eq!((off.is_consistent, off.discrepancy), (false, 3));
    let tokens = vec![
        XFusionNAVToken { bundle_id: 1, owner: p(1), amount: 5, last_updated: NOW },
        XFusionNAVToken { bundle_id: 2, owner: p(1), amount: 6, last_updated: NOW },
        XFusionNAVToken { bundle_id: 1, owner: p(2), amount: 7, last_updated: NOW },
    ];
    assert_eq!(calculate_total_supply_from_holders(&tokens, 1), 12);
    assert_eq!(calculate_total_supply_from_holders(&tokens, 3), 0);

    let positions = vec![ValuedPosition { amount: 3, nav_per_token: 5 }, ValuedPosition { amount: 2, nav_per_token: 1 }];
    assert_eq!(get_portfolio_value(&positions).unwrap(), 17);
    let overflowing = vec![ValuedPosition { amount: u64::MAX, nav_per_token: 2 }];
    assert!(matches!(get_portfolio_value(&overflowing), Err(Error::ValueOverflow)));

    let allocations = vec![
        PricedAllocation { percentage: 50, price: Some((2_00000000, 8)) },
        PricedAllocation { percentage: 50, price: None },
    ];
    let report = calculate_nav_with_full_precision_report(9, 1000, &allocations, NOW).unwrap();
    assert_eq!(report.total_usd_value, 500);
    assert_eq!(report.nav_per_token_8_decimals, 0);
    assert_eq!(report.nav_per_token_18_decimals, 5_000_000_000);
    assert_eq!(report.precision_loss_amount, 5_000_000_000);
    assert_eq!(report.formatted_nav_display, "0.00000000");
    let none = calculate_nav_with_full_precision_report(9, 0, &allocations, NOW).unwrap();
    assert_eq!(none.formatted_nav_display, "0.00000000");
}

#[test]
fn bundle_tokens_are_asked_for_on_the_ledger() {
    let (_, _, bundles) = catalog();
    let token = TokenLocation { ledger: p(9), token_id: [5; 32] };
    assert_eq!(
        get_user_nav_token_balance(&bundles, p(2), 0).unwrap(),
        LedgerCall::TokenBalance { token, account: p(2) }
    );
    assert_eq!(get_total_tokens_for_bundle(&bundles, 0).unwrap(), LedgerCall::TokenSupply { token });
    assert!(matches!(get_total_tokens_for_bundle(&bundles, 4), Err(Error::BundleNotFound { .. })));
    assert_eq!(get_user_ckusdc_balance(p(2)), LedgerCall::SettlementBalance { account: p(2) });
    assert_eq!(get_total_nav_token_supply(), 0);
    assert_eq!(get_bundle_holder_count(0), 1);
    assert!(get_user_nav_tokens(p(2)).is_empty());
    assert_eq!(nav_token_key(p(2), 17), format!("{}:17", p(2).to_text()));
}

#[test]
fn listings_and_searches() {
    let (_, registry, bundles) = catalog();
    let info = get_canister_info(&registry, &bundles);
    assert_eq!((info.version.as_str(), info.total_assets, info.total_bundles), ("0.1.0", 3, 1));
    assert_eq!(search_assets(&registry, "CHAIN key ckb").len(), 1);
    assert_eq!(search_assets(&registry, "ck").len(), 2);
    assert_eq!(search_assets(&registry, "").len(), 3);
    assert!(search_assets(&registry, "eth").is_empty());
    assert_eq!(search_bundles(&bundles, "BULLION").len(), 1);
    assert_eq!(search_bundles(&bundles, "digital").len(), 1);
    assert!(search_bundles(&bundles, "silver").is_empty());
    let summaries = get_asset_summary(&registry, &bundles);
    assert_eq!(summaries.len(), 3);
    assert_eq!((summaries[0].id.0.as_str(), summaries[0].bundles_using), ("ckBTC", 1));
    assert_eq!(summaries[1].bundles_using, 0);
    let summary = get_bundle_summary(&bundles, 0, 77, 3).unwrap();
    assert_eq!((summary.name.as_str(), summary.total_nav_tokens, summary.holder_count), ("Digital Gold", 77, 3));
    assert_eq!(summary.allocations.len(), 2);
    assert!(get_bundle_summary(&bundles, 1, 0, 0).is_err());
    let tokens = vec![
        XFusionNAVToken { bundle_id: 0, owner: p(2), amount: 5, last_updated: NOW },
        XFusionNAVToken { bundle_id: 8, owner: p(2), amount: 6, last_updated: NOW },
    ];
    let portfolio = get_user_portfolio(&bundles, p(2), &tokens);
    assert_eq!(portfolio.nav_token_holdings[0].bundle_name, "Digital Gold");
    assert_eq!(portfolio.nav_token_holdings[1].bundle_name, "Unknown Bundle");
    assert_eq!(portfolio.total_nav_tokens_held, 11);
    assert_eq!((portfolio.created_bundles.clone(), portfolio.total_bundles_created), (vec![0], 1));
}

#[test]
fn a_liquidation_must_stay_within_the_slippage() {
    let mut requests = QuoteRequests::new();
    let request = QuoteRequest {
        request_id: 0,
        user: p(9),
        bundle_id: 1,
        operation: OperationType::Sell,
        amount: 5,
        max_slippage: 200,
        expires_at: NOW + 10,
        created_at: 0,
    };
    let first = requests.request_quote(request, p(2), NOW).unwrap();
    assert_eq!(first, 1);
    let stored = requests.get_quote_request(1).unwrap();
    assert_eq!((stored.request_id, stored.user, stored.created_at, stored.max_slippage), (1, p(2), NOW, 200));
    assert!(matches!(requests.get_quote_request(2), Err(Error::QuoteRequestNotFound)));
    assert_eq!(requests.request_quote(request, p(3), NOW).unwrap(), 2);
    assert_eq!(requests.all_requests().len(), 2);
    assert!(requests.restore_request(QuoteRequest { request_id: 2, ..request }).is_err());
    assert!(requests.restore_request(QuoteRequest { request_id: 7, ..request }).is_ok());
    assert_eq!(requests.request_quote(request, p(3), NOW).unwrap(), 8);

    let mut assignments = AssignmentStore::new();
    assignments.store_assignment(QuoteAssignment {
        request_id: 1,
        resolver: p(5),
        nav_tokens: 10,
        ckusdc_amount: 1_000_000,
        asset_amounts: vec![AssetAmount { asset_id: id("ckBTC"), amount: 1 }],
        estimated_nav: 0,
        fees: 0,
        valid_until: NOW,
        assigned_at: NOW,
    });
    assert!(matches!(
        confirm_asset_liquidation(&mut assignments, &requests, 9, p(5), 1),
        Err(Error::AssignmentNotFound)
    ));
    assert!(matches!(
        confirm_asset_liquidation(&mut assignments, &requests, 1, p(6), 1_000_000),
        Err(Error::NotAssignedResolver)
    ));
    match confirm_asset_liquidation(&mut assignments, &requests, 1, p(5), 979_999) {
        Err(e) => assert_eq!(e.message(), "Received ckUSDC 979999 is below minimum acceptable 980000"),
        Ok(()) => panic!("accepted"),
    }
    assert_eq!(assignments.get_assignment(1).unwrap().ckusdc_amount, 1_000_000);
    confirm_asset_liquidation(&mut assignments, &requests, 1, p(5), 980_000).unwrap();
    assert_eq!(assignments.get_assignment(1).unwrap().ckusdc_amount, 980_000);
    assert_eq!(assignments.len(), 1);
    assert_eq!(assignments.get_at(0).asset_amounts.len(), 1);
}

#[test]
fn ledger_calls_take_their_wire_form() {
    let memo = b"Payment for buy tx 1".to_vec();
    let request = LedgerRequest { call: LedgerCall::SettlementTransfer { to: p(3), amount: 9 }, memo: memo.clone() };
    let wire = wire_call(request, p(8), NOW);
    assert_eq!((wire.ledger, wire.method.as_str()), (p(8), "icrc1_transfer"));
    match wire.args {
        WireArgs::Transfer(args) => {
            assert_eq!((args.to.owner, args.to.subaccount, args.amount), (p(3), None, 9));
            assert_eq!((args.fee, args.from_subaccount, args.created_at_time), (None, None, Some(NOW)));
            assert_eq!(args.memo, Some(memo.clone()));
        }
        other => panic!("unexpected {:?}", other),
    }
    let token = TokenLocation { ledger: p(9), token_id: [4; 32] };
    let request = LedgerRequest {
        call: LedgerCall::TokenTransferFrom { token, from: p(3), to: p(4), amount: 12 },
        memo: memo.clone(),
    };
    let wire = wire_call(request, p(8), NOW);
    assert_eq!((wire.ledger, wire.method.as_str()), (p(9), "icrc151_transfer_from"));
    match wire.args {
        WireArgs::TokenTransferFrom(args) => {
            assert_eq!(args.token_id, vec![4u8; 32]);
            assert_eq!((args.from.owner, args.to.owner, args.amount), (p(3), p(4), 12));
            assert_eq!((args.created_at_time, args.fee), (None, None));
        }
        other => panic!("unexpected {:?}", other),
    }
    let methods: Vec<String> = vec![
        LedgerCall::SettlementTransferFrom { from: p(1), to: p(2), amount: 1 },
        LedgerCall::SettlementAllowance { owner: p(1), spender: p(2) },
        LedgerCall::SettlementBalance { account: p(1) },
        LedgerCall::TokenTransfer { token, to: p(1), amount: 1 },
        LedgerCall::TokenMint { token, to: p(1), amount: 1 },
        LedgerCall::TokenBurn { token, from: p(1), amount: 1 },
        LedgerCall::TokenAllowance { token, owner: p(1), spender: p(2) },
        LedgerCall::TokenBalance { token, account: p(1) },
        LedgerCall::TokenSupply { token },
    ]
    .into_iter()
    .map(|call| wire_call(LedgerRequest { call, memo: vec![] }, p(8), NOW).method)
    .collect();
    assert_eq!(
        methods,
        vec![
            "icrc2_transfer_from",
            "icrc2_allowance",
            "icrc1_balance_of",
            "icrc151_transfer",
            "mint_tokens",
            "burn_tokens_from",
            "icrc2_allowance",
            "icrc1_balance_of",
            "get_total_supply"
        ]
    );

    assert_eq!(icrc1_transfer(p(1), 2, None, 3).memo, None);
    assert_eq!(icrc2_approve(p(1), 2, Some(9), None, 3).expires_at, Some(9));
    assert_eq!(transfer_outcome(&Ok(5)).unwrap(), 5);
    assert_eq!(
        transfer_outcome(&Err(TransferError::InsufficientFunds { balance: 4 })).unwrap_err(),
        "InsufficientFunds 4"
    );
    assert_eq!(
        describe_transfer_error(&TransferError::GenericError { error_code: 3, message: "no".to_string() }),
        "GenericError 3 no"
    );
    assert_eq!(approve_outcome(&Err(ApproveError::TooOld)).unwrap_err(), "TooOld");
    assert!(check_user_allowance(&Allowance { allowance: 5, expires_at: None }, 5).is_ok());
    assert!(matches!(
        check_user_allowance(&Allowance { allowance: 4, expires_at: None }, 5),
        Err(Error::InsufficientAllowance { available: 4, required: 5 })
    ));
    let ledger = PrincipalId::from_text(CKUSDC_LEDGER_CANISTER).unwrap();
    assert_eq!(ledger.to_text(), CKUSDC_LEDGER_CANISTER);
    assert!(PrincipalId::from_text("not a principal").is_none());
}

#[test]
fn stored_state_is_put_back_record_by_record() {
    let mut manager = TransactionManager::new();
    let tx = Transaction {
        id: 4,
        request_id: 4,
        user: p(2),
        resolver: p(3),
        bundle_id: 1,
        operation: OperationType::Buy,
        status: TransactionStatus::FundsLocked,
        nav_tokens: 1,
        ckusdc_amount: 2,
        created_at: NOW,
        updated_at: NOW,
        completed_at: None,
        timeout_at: NOW + 5,
    };
    let lock = LockedFunds {
        user: p(2),
        transaction_id: 4,
        fund_type: LockedFundType::CkUSDC,
        amount: 2,
        locked_at: NOW,
        expires_at: NOW + 5,
    };
    assert!(matches!(manager.restore_lock(lock), Err(Error::InconsistentRecord)));
    manager.restore_transaction(tx).unwrap();
    assert!(matches!(manager.restore_transaction(tx), Err(Error::InconsistentRecord)));
    assert!(matches!(manager.restore_lock(LockedFunds { user: p(3), ..lock }), Err(Error::InconsistentRecord)));
    manager.restore_lock(lock).unwrap();
    assert!(matches!(manager.restore_lock(lock), Err(Error::InconsistentRecord)));
    manager.restore_counter(9);
    manager.restore_counter(3);
    assert_eq!(manager.last_transaction_id(), 9);
    assert_eq!(manager.create_transaction(p(2), p(3), 1, OperationType::Sell, 1, 1, NOW).unwrap(), 10);
    assert_eq!(manager.all_transactions().len(), 2);
    assert_eq!(manager.all_locks(), vec![lock]);
    assert_eq!(manager.get_transaction_locks(4), vec![lock]);

    let slow = manager.monitor_transaction_health(NOW + 900_000_000_001);
    assert_eq!(slow.len(), 2);
    assert_eq!((slow[0].transaction_id, slow[0].age_ms), (4, 900_000));
    assert!(manager.monitor_transaction_health(NOW + 900_000_000_000).is_empty());
    let later = manager.create_transaction(p(2), p(3), 1, OperationType::Sell, 1, 1, NOW + 1).unwrap();
    let recent = manager.get_recent_transactions(2);
    assert_eq!(recent.iter().map(|s| s.id).collect::<Vec<_>>(), vec![later, 4]);
    assert_eq!(manager.get_recent_transactions(9).len(), 3);
    assert!(manager.get_recent_transactions(0).is_empty());
    assert_eq!(manager.cleanup_expired_transactions(NOW + 4), 0);
    assert_eq!(manager.cleanup_expired_transactions(NOW + 5), 1);
    assert_eq!(manager.get_transaction(4).unwrap().status, TransactionStatus::TimedOut);
    assert!(manager.all_locks().is_empty());
    assert_eq!(manager.cleanup_expired_transactions(NOW + 5), 0);
}

#[test]
fn every_refusal_has_its_input() {
    assert!(matches!(
        xfusion_backend::nav_calculator::normalize_amount_to_usd(u64::MAX, 0, 2),
        Err(Error::NormalizationOverflow)
    ));
    assert_eq!(xfusion_backend::nav_calculator::normalize_amount_to_usd(9, 200, 9).unwrap(), 0);

    let (_, _, mut bundles) = catalog();
    let copy = bundles.get_bundle(0).unwrap().clone();
    assert_eq!(bundles.restore_bundle(copy).unwrap_err().message(), "Bundle already exists: 0");

    let mut manager = TransactionManager::new();
    manager.restore_counter(u64::MAX);
    assert!(matches!(
        manager.create_transaction(p(2), p(3), 1, OperationType::Buy, 1, 1, NOW),
        Err(Error::CounterOverflow)
    ));
    assert_eq!(Error::CounterOverflow.kind(), ErrorKind::Overflow);

    let mut manager = TransactionManager::new();
    let sell = manager.create_transaction(p(2), p(3), 1, OperationType::Sell, 1, 1, NOW).unwrap();
    manager.lock_user_funds(sell, LockedFundType::CkUSDC, 1, NOW).unwrap();
    assert!(matches!(
        xfusion_backend::error_recovery::validate_transaction_integrity(&manager, sell, NOW),
        Err(Error::MissingTokenLock)
    ));
    assert_eq!(Error::MissingTokenLock.kind(), ErrorKind::State);
}

#[test]
fn a_fee_above_the_amount_is_refused_before_any_call() {
    let (state, mut registry, bundles) = catalog();
    registry
        .update_asset_token_location(&state, &p(1), &id("GLDT"), p(9), AssetStandard::ICRC151 { token_id: [3; 32] })
        .unwrap();
    let mut manager = TransactionManager::new();
    let buy = manager.create_transaction(p(2), p(3), 0, OperationType::Buy, 10, 100, NOW).unwrap();
    manager.lock_user_funds(buy, LockedFundType::CkUSDC, 100, NOW).unwrap();
    let mut assignments = AssignmentStore::new();
    assignments.store_assignment(QuoteAssignment {
        request_id: buy,
        resolver: p(3),
        nav_tokens: 10,
        ckusdc_amount: 100,
        asset_amounts: vec![AssetAmount { asset_id: id("GLDT"), amount: 5 }],
        estimated_nav: 0,
        fees: 101,
        valid_until: NOW,
        assigned_at: NOW,
    });
    let refused = xfusion_backend::buy_flow::confirm_asset_deposit(
        &state,
        &bundles,
        &registry,
        &assignments,
        &mut manager,
        p(7),
        buy,
        p(3),
        NOW,
    );
    assert!(matches!(refused, Err(Error::FeeExceedsAmount)));
    assert_eq!(manager.get_transaction(buy).unwrap().status, TransactionStatus::FundsLocked);
    assignments.update_settlement_amount(buy, 101).unwrap();
    let opened = xfusion_backend::buy_flow::confirm_asset_deposit(
        &state,
        &bundles,
        &registry,
        &assignments,
        &mut manager,
        p(7),
        buy,
        p(3),
        NOW,
    )
    .unwrap();
    assert_eq!(opened.stage, xfusion_backend::buy_flow::BuyStage::CheckAllowance(0));
    assert_eq!((opened.fees, opened.ckusdc_amount, opened.treasury), (101, 101, None));
    let request = opened.next_request().unwrap();
    assert_eq!(
        request.call,
        LedgerCall::TokenAllowance {
            token: TokenLocation { ledger: p(9), token_id: [3; 32] },
            owner: p(3),
            spender: p(7)
        }
    );
    assert!(matches!(assignments.update_settlement_amount(77, 1), Err(Error::AssignmentNotFound)));
}
