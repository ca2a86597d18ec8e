use candid::Principal;
use xfusion_backend::principal::PrincipalId;
use xfusion_backend::types::{
    AssetAllocation, AssetCategory, AssetId, AssetInfo, AssetMetadata, AssetStandard, BundleHolding,
    LockedFundType, LockedFunds, OperationType, QuoteAssignment, QuoteRequest, Transaction,
    TransactionStatus, XFusionNAVToken,
};

fn mock_principal() -> PrincipalId {
    let principal = Principal::from_text("rdmx6-jaaaa-aaaaa-aaadq-cai").unwrap();
    PrincipalId::from_slice(principal.as_slice()).unwrap()
}

fn mock_asset_id() -> AssetId {
    AssetId("ckBTC".to_string())
}

fn mock_asset_info() -> AssetInfo {
    AssetInfo {
        id: mock_asset_id(),
        symbol: "ckBTC".to_string(),
        name: "Chain Key Bitcoin".to_string(),
        standard: AssetStandard::ICRC2,
        ledger_canister: mock_principal(),
        minter_canister: Some(mock_principal()),
        oracle_ticker: Some("BTC".to_string()),
        decimals: 8,
        is_active: true,
        added_at: 1699000000000000000,
        metadata: AssetMetadata {
            logo_url: None,
            website: None,
            description: Some("Bitcoin on IC".to_string()),
            category: AssetCategory::Cryptocurrency,
        },
    }
}

#[test]
fn test_asset_id_and_types() {
    let asset_id = mock_asset_id();
    assert_eq!(asset_id.0, "ckBTC");

    let asset_info = mock_asset_info();
    assert_eq!(asset_info.symbol, "ckBTC");
    assert_eq!(asset_info.decimals, 8);
    assert!(asset_info.is_active);
    assert!(matches!(asset_info.standard, AssetStandard::ICRC2));
    assert!(matches!(asset_info.metadata.category, AssetCategory::Cryptocurrency));
}

#[test]
fn test_bundle_allocation_validation() {
    let allocation = AssetAllocation { asset_id: mock_asset_id(), percentage: 50 };
    assert_eq!(allocation.percentage, 50);
    assert_eq!(allocation.asset_id.0, "ckBTC");

    assert!(allocation.percentage <= 100);
    assert!(allocation.percentage > 0);
}

#[test]
fn test_transaction_status_types() {
    let statuses = vec![
        TransactionStatus::Pending,
        TransactionStatus::WaitingForResolver,
        TransactionStatus::FundsLocked,
        TransactionStatus::InProgress,
        TransactionStatus::Completed,
        TransactionStatus::Failed,
        TransactionStatus::TimedOut,
    ];

    for status in statuses {
        match status {
            TransactionStatus::Pending => assert!(true),
            TransactionStatus::WaitingForResolver => assert!(true),
            TransactionStatus::FundsLocked => assert!(true),
            TransactionStatus::InProgress => assert!(true),
            TransactionStatus::AssetsTransferred => assert!(true),
            TransactionStatus::Completed => assert!(true),
            TransactionStatus::Failed => assert!(true),
            TransactionStatus::TimedOut => assert!(true),
        }
    }
}

#[test]
fn test_locked_fund_types() {
    let ckusdc_lock = LockedFundType::CkUSDC;
    let nav_lock = LockedFundType::NAVTokens { bundle_id: 1 };

    match ckusdc_lock {
        LockedFundType::CkUSDC => assert!(true),
        _ => assert!(false),
    }

    match nav_lock {
        LockedFundType::NAVTokens { bundle_id } => assert_eq!(bundle_id, 1),
        _ => assert!(false),
    }
}

#[test]
fn test_operation_types() {
    let buy_op = OperationType::Buy;
    let sell_op = OperationType::Sell;

    match buy_op {
        OperationType::Buy => assert!(true),
        OperationType::Sell => assert!(false),
    }

    match sell_op {
        OperationType::Sell => assert!(true),
        OperationType::Buy => assert!(false),
    }
}

#[test]
fn test_quote_request_structure() {
    let user = mock_principal();
    let quote_request = QuoteRequest {
        request_id: 1,
        user,
        bundle_id: 1,
        operation: OperationType::Buy,
        amount: 1000_00000000u64,
        max_slippage: 5,
        created_at: 1699000000000000000,
        expires_at: 1699000300000000000,
    };

    assert_eq!(quote_request.request_id, 1);
    assert_eq!(quote_request.user, user);
    assert_eq!(quote_request.bundle_id, 1);
    assert!(matches!(quote_request.operation, OperationType::Buy));
    assert_eq!(quote_request.amount, 1000_00000000u64);
    assert_eq!(quote_request.max_slippage, 5);
    assert!(quote_request.expires_at > quote_request.created_at);
}

#[test]
fn test_quote_assignment_structure() {
    let resolver = mock_principal();
    let quote_assignment = QuoteAssignment {
        request_id: 1,
        resolver,
        nav_tokens: 500_00000000u64,
        ckusdc_amount: 1000_00000000u64,
        asset_amounts: vec![],
        estimated_nav: 2_00000000u64,
        fees: 5_00000000u64,
        assigned_at: 1699000000000000000,
        valid_until: 1699000180000000000,
    };

    assert_eq!(quote_assignment.request_id, 1);
    assert_eq!(quote_assignment.resolver, resolver);
    assert_eq!(quote_assignment.nav_tokens, 500_00000000u64);
    assert_eq!(quote_assignment.ckusdc_amount, 1000_00000000u64);
    assert_eq!(quote_assignment.estimated_nav, 2_00000000u64);
    assert_eq!(quote_assignment.fees, 5_00000000u64);
    assert!(quote_assignment.valid_until > quote_assignment.assigned_at);

    let calculated_nav = quote_assignment.ckusdc_amount / quote_assignment.nav_tokens;
    assert_eq!(calculated_nav, 2u64);
}

#[test]
fn test_transaction_structure() {
    let user = mock_principal();
    let resolver = mock_principal();
    let transaction = Transaction {
        id: 1,
        request_id: 1,
        user,
        resolver,
        bundle_id: 1,
        operation: OperationType::Buy,
        status: TransactionStatus::Pending,
        nav_tokens: 500_00000000u64,
        ckusdc_amount: 1000_00000000u64,
        created_at: 1699000000000000000,
        updated_at: 1699000000000000000,
        completed_at: None,
        timeout_at: 1699001800000000000,
    };

    assert_eq!(transaction.id, 1);
    assert_eq!(transaction.request_id, 1);
    assert_eq!(transaction.user, user);
    assert_eq!(transaction.resolver, resolver);
    assert_eq!(transaction.bundle_id, 1);
    assert!(matches!(transaction.operation, OperationType::Buy));
    assert!(matches!(transaction.status, TransactionStatus::Pending));
    assert_eq!(transaction.nav_tokens, 500_00000000u64);
    assert_eq!(transaction.ckusdc_amount, 1000_00000000u64);
    assert_eq!(transaction.created_at, transaction.updated_at);
    assert!(transaction.completed_at.is_none());
    assert!(transaction.timeout_at > transaction.created_at);
}

#[test]
fn test_locked_funds_structure() {
    let user = mock_principal();
    let locked_funds = LockedFunds {
        user,
        transaction_id: 1,
        fund_type: LockedFundType::CkUSDC,
        amount: 1000_00000000u64,
        locked_at: 1699000000000000000,
        expires_at: 1699001800000000000,
    };

    assert_eq!(locked_funds.user, user);
    assert_eq!(locked_funds.transaction_id, 1);
    assert!(matches!(locked_funds.fund_type, LockedFundType::CkUSDC));
    assert_eq!(locked_funds.amount, 1000_00000000u64);
    assert!(locked_funds.expires_at > locked_funds.locked_at);

    let nav_locked_funds = LockedFunds {
        user,
        transaction_id: 2,
        fund_type: LockedFundType::NAVTokens { bundle_id: 1 },
        amount: 500_00000000u64,
        locked_at: 1699000000000000000,
        expires_at: 1699001800000000000,
    };

    match nav_locked_funds.fund_type {
        LockedFundType::NAVTokens { bundle_id } => assert_eq!(bundle_id, 1),
        _ => assert!(false),
    }
}

#[test]
fn test_bundle_holding_structure() {
    let asset_id = mock_asset_id();
    let bundle_holding = BundleHolding {
        bundle_id: 1,
        asset_id: asset_id.clone(),
        amount: 50_000_000u64,
        last_updated: 1699000000000000000,
    };

    assert_eq!(bundle_holding.bundle_id, 1);
    assert_eq!(bundle_holding.asset_id, asset_id);
    assert_eq!(bundle_holding.amount, 50_000_000u64);
    assert!(bundle_holding.last_updated > 0);
}

#[test]
fn test_nav_token_structure() {
    let user = mock_principal();
    let nav_token = XFusionNAVToken {
        bundle_id: 1,
        owner: user,
        amount: 500_00000000u64,
        last_updated: 1699000000000000000,
    };

    assert_eq!(nav_token.bundle_id, 1);
    assert_eq!(nav_token.owner, user);
    assert_eq!(nav_token.amount, 500_00000000u64);
    assert!(nav_token.last_updated > 0);
}

#[test]
fn test_transaction_status_transitions() {
    let valid_buy_transitions = vec![
        (TransactionStatus::Pending, TransactionStatus::WaitingForResolver),
        (TransactionStatus::WaitingForResolver, TransactionStatus::FundsLocked),
        (TransactionStatus::FundsLocked, TransactionStatus::InProgress),
        (TransactionStatus::InProgress, TransactionStatus::Completed),
        (TransactionStatus::Pending, TransactionStatus::Failed),
        (TransactionStatus::FundsLocked, TransactionStatus::TimedOut),
    ];

    for (from_status, to_status) in valid_buy_transitions {
        match (&from_status, &to_status) {
            (TransactionStatus::Pending, TransactionStatus::WaitingForResolver) => assert!(true),
            (TransactionStatus::WaitingForResolver, TransactionStatus::FundsLocked) => assert!(true),
            (TransactionStatus::FundsLocked, TransactionStatus::InProgress) => assert!(true),
            (TransactionStatus::InProgress, TransactionStatus::Completed) => assert!(true),
            (TransactionStatus::Pending, TransactionStatus::Failed) => assert!(true),
            (TransactionStatus::FundsLocked, TransactionStatus::TimedOut) => assert!(true),
            _ => assert!(false, "Invalid transition from {:?} to {:?}", from_status, to_status),
        }
    }
}

#[test]
fn test_transaction_timeout_scenarios() {
    let base_time = 1699000000000000000u64;
    let timeout_duration = 1800_000_000_000u64;

    let transaction = Transaction {
        id: 1,
        request_id: 1,
        user: mock_principal(),
        resolver: mock_principal(),
        bundle_id: 1,
        operation: OperationType::Buy,
        status: TransactionStatus::FundsLocked,
        nav_tokens: 100_00000000u64,
        ckusdc_amount: 200_00000000u64,
        created_at: base_time,
        updated_at: base_time,
        completed_at: None,
        timeout_at: base_time + timeout_duration,
    };

    let current_time_1 = base_time + 900_000_000_000u64;
    let is_timed_out_1 = current_time_1 > transaction.timeout_at;
    assert!(!is_timed_out_1);

    let current_time_2 = base_time + 2400_000_000_000u64;
    let is_timed_out_2 = current_time_2 > transaction.timeout_at;
    assert!(is_timed_out_2);

    let current_time_3 = transaction.timeout_at;
    let is_timed_out_3 = current_time_3 > transaction.timeout_at;
    assert!(!is_timed_out_3);
}

#[test]
fn test_fund_locking_error_scenarios() {
    let user = mock_principal();

    let insufficient_lock = LockedFunds {
        user,
        transaction_id: 1,
        fund_type: LockedFundType::CkUSDC,
        amount: 1000_00000000u64,
        locked_at: 1699000000000000000,
        expires_at: 1699001800000000000,
    };

    assert_eq!(insufficient_lock.amount, 1000_00000000u64);
    assert!(matches!(insufficient_lock.fund_type, LockedFundType::CkUSDC));

    let insufficient_nav_lock = LockedFunds {
        user,
        transaction_id: 2,
        fund_type: LockedFundType::NAVTokens { bundle_id: 1 },
        amount: 500_00000000u64,
        locked_at: 1699000000000000000,
        expires_at: 1699001800000000000,
    };

    match insufficient_nav_lock.fund_type {
        LockedFundType::NAVTokens { bundle_id } => {
            assert_eq!(bundle_id, 1);
            assert_eq!(insufficient_nav_lock.amount, 500_00000000u64);
        }
        _ => assert!(false),
    }
}

#[test]
fn test_asset_deposit_validation_errors() {
    let _user = mock_principal();
    let asset_id = mock_asset_id();

    let valid_deposit = (asset_id.clone(), 50_000_000u64);
    assert!(valid_deposit.1 > 0);
    assert_eq!(valid_deposit.0 .0, "ckBTC");

    let zero_deposit = (asset_id.clone(), 0u64);
    assert_eq!(zero_deposit.1, 0);

    let deposits = vec![
        (AssetId("ckBTC".to_string()), 25_000_000u64),
        (AssetId("ckETH".to_string()), 1_000_000_000u64),
        (AssetId("GLDT".to_string()), 100_000_000u64),
    ];

    for (asset, amount) in deposits {
        assert!(amount > 0, "Deposit amount must be positive for asset {}", asset.0);
        assert!(!asset.0.is_empty(), "Asset ID cannot be empty");
    }
}

#[test]
fn test_transaction_failure_recovery() {
    let base_time = 1699000000000000000u64;
    let user = mock_principal();

    let failed_transaction = Transaction {
        id: 1,
        request_id: 1,
        user,
        resolver: mock_principal(),
        bundle_id: 1,
        operation: OperationType::Buy,
        status: TransactionStatus::Failed,
        nav_tokens: 100_00000000u64,
        ckusdc_amount: 200_00000000u64,
        created_at: base_time,
        updated_at: base_time + 300_000_000_000u64,
        completed_at: Some(base_time + 300_000_000_000u64),
        timeout_at: base_time + 1800_000_000_000u64,
    };

    assert!(matches!(failed_transaction.status, TransactionStatus::Failed));
    assert!(failed_transaction.completed_at.is_some());
    assert!(failed_transaction.updated_at > failed_transaction.created_at);

    let locked_funds_to_unlock = LockedFunds {
        user: failed_transaction.user,
        transaction_id: failed_transaction.id,
        fund_type: LockedFundType::CkUSDC,
        amount: failed_transaction.ckusdc_amount,
        locked_at: failed_transaction.created_at,
        expires_at: failed_transaction.timeout_at,
    };

    assert_eq!(locked_funds_to_unlock.amount, failed_transaction.ckusdc_amount);
    assert_eq!(locked_funds_to_unlock.transaction_id, failed_transaction.id);
}

#[test]
fn test_quote_expiration_handling() {
    let base_time = 1699000000000000000u64;
    let quote_duration = 300_000_000_000u64;

    let quote_request = QuoteRequest {
        request_id: 1,
        user: mock_principal(),
        bundle_id: 1,
        operation: OperationType::Buy,
        amount: 200_00000000u64,
        max_slippage: 5,
        created_at: base_time,
        expires_at: base_time + quote_duration,
    };

    let time_scenarios = vec![
        (base_time + 120_000_000_000u64, false),
        (base_time + 300_000_000_000u64, false),
        (base_time + 301_000_000_000u64, true),
        (base_time + 600_000_000_000u64, true),
    ];

    for (current_time, should_be_expired) in time_scenarios {
        let is_expired = current_time > quote_request.expires_at;
        assert_eq!(
            is_expired,
            should_be_expired,
            "Quote should {} at time offset {}ns",
            if should_be_expired { "be expired" } else { "not be expired" },
            current_time - base_time
        );
    }
}

#[test]
fn test_storage_map_key_consistency() {
    let btc_id = AssetId("ckBTC".to_string());
    let eth_id = AssetId("ckETH".to_string());
    let usdc_id = AssetId("ckUSDC".to_string());

    assert_ne!(btc_id, eth_id, "Different assets should have different IDs");
    assert_ne!(btc_id, usdc_id, "Different assets should have different IDs");
    assert_ne!(eth_id, usdc_id, "Different assets should have different IDs");

    assert!(btc_id < eth_id, "Asset IDs should have consistent ordering");
    assert!(btc_id < usdc_id, "Asset IDs should have consistent ordering");
    assert!(eth_id > btc_id, "Asset IDs should have consistent ordering");

    let bundle_id_1 = 1u64;
    let bundle_id_2 = 2u64;
    assert_ne!(bundle_id_1, bundle_id_2, "Bundle IDs should be unique");
    assert!(bundle_id_1 < bundle_id_2, "Bundle IDs should have natural ordering");

    let user = mock_principal();
    let nav_key_1 = format!("{}:{}", user.to_text(), bundle_id_1);
    let nav_key_2 = format!("{}:{}", user.to_text(), bundle_id_2);
    assert_ne!(nav_key_1, nav_key_2, "NAV token keys should be unique per bundle");
}

#[test]
fn test_memory_efficiency_and_bounds() {
    let principal = mock_principal();
    let principal_text = principal.to_text();
    assert!(principal_text.len() < 100, "Principal text should be reasonably sized");

    let timestamp = 1699000000000000000u64;
    assert!(timestamp > 0, "Timestamp should be positive");
    assert!(timestamp < u64::MAX / 2, "Timestamp should be reasonable");

    let max_reasonable_amount = u64::MAX / 1000;
    let test_amounts = [0u64, 1u64, 1_000_000u64, 1_000_000_000u64, max_reasonable_amount];

    for amount in test_amounts {
        let doubled = amount.checked_mul(2);
        if amount <= max_reasonable_amount {
            assert!(
                doubled.is_some() || amount == 0,
                "Reasonable amounts should not overflow in basic operations"
            );
        }
    }

    let realistic_prices = [1u64, 1_00_000_000u64, 100_000_00_000_000u64];

    for price in realistic_prices {
        assert!(price > 0, "Prices should be positive");
        assert!(price <= 1_000_000_00_000_000u64, "Prices should be within reasonable bounds");
    }
}

#[test]
fn test_concurrent_data_access_patterns() {
    let asset_ids = vec![
        AssetId("ckBTC".to_string()),
        AssetId("ckETH".to_string()),
        AssetId("ckUSDC".to_string()),
    ];

    for asset_id in &asset_ids {
        let _cloned_id = asset_id.clone();
        assert_eq!(asset_id.0, _cloned_id.0, "Asset ID cloning should be consistent");
    }

    let bundle_ids = vec![1u64, 2u64, 3u64];

    for bundle_id in &bundle_ids {
        assert!(*bundle_id > 0, "Bundle IDs should be positive");

        let user1 = mock_principal();
        let user1_text = user1.to_text();
        let user2_text = "different-user-principal-text";

        let key1 = format!("{}:{}", user1_text, bundle_id);
        let key2 = format!("{}:{}", user2_text, bundle_id);

        assert_ne!(key1, key2, "Different users should have different NAV token keys");
    }

    let now = 1699000000000000000u64;
    let later = now + 1000000000u64;
    assert!(later > now, "Timestamps should maintain ordering");
    assert!(later - now == 1000000000u64, "Timestamp arithmetic should be precise");
}

#[test]
fn principal_text_is_the_ledger_text() {
    let text = "rdmx6-jaaaa-aaaaa-aaadq-cai";
    let principal = Principal::from_text(text).unwrap();
    let id = PrincipalId::from_slice(principal.as_slice()).unwrap();
    assert_eq!(id.to_text(), text);
    assert_eq!(id.to_bytes(), principal.as_slice().to_vec());
    assert_eq!(PrincipalId::from_slice(&[]).unwrap().to_text(), "aaaaa-aa");
    assert_eq!(PrincipalId::from_slice(&[4]).unwrap().to_text(), Principal::anonymous().to_text());
    assert!(PrincipalId::from_slice(&[0u8; 30]).is_none());
    assert!(PrincipalId::from_slice(&[0u8; 29]).is_some());
}

#[test]
fn principals_are_the_same_when_their_bytes_are() {
    let a = PrincipalId::from_slice(&[1, 2, 3]).unwrap();
    let b = PrincipalId::from_slice(&[1, 2, 3]).unwrap();
    let c = PrincipalId::from_slice(&[1, 2]).unwrap();
    let d = PrincipalId::from_slice(&[1, 2, 0]).unwrap();
    assert!(a.same_as(&b));
    assert_eq!(a, b);
    assert!(!a.same_as(&c));
    assert!(!c.same_as(&d));
    assert_ne!(c, d);
}
