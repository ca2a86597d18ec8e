use xfusion_backend::error::{Error, ErrorKind};
use xfusion_backend::nav_calculator::{
    adjust_price_for_decimals, calculate_allocation_value, calculate_allocation_value_with_decimals,
    calculate_holding_value_usd, calculate_nav_per_token_with_supply_validation,
    calculate_precise_nav_per_token, convert_amount_between_decimals, format_nav_with_precision,
    normalize_amount_to_usd, scale_amount_to_decimals, validate_bundle_allocations,
};
use xfusion_backend::types::{AssetAllocation, AssetId};

fn get_mock_oracle_price(ticker: &str) -> u64 {
    match ticker {
        "BTC" => 100_000_00_000_000u64,
        "ETH" => 4_000_00_000_000u64,
        "USDC" => 1_00_000_000u64,
        "GOLD" => 3_000_00_000_000u64,
        "GLDT" => 1_50_000_000u64,
        _ => 1_00_000_000u64,
    }
}

#[test]
fn test_precise_nav_calculation() {
    let total_value = 1000_00000000u64;
    let total_tokens = 500u64;
    let decimals = 8u8;

    let nav_per_token = calculate_precise_nav_per_token(total_value, total_tokens, decimals);
    assert_eq!(nav_per_token, 2_00000000u64);

    let nav_zero_tokens = calculate_precise_nav_per_token(total_value, 0, decimals);
    assert_eq!(nav_zero_tokens, 0u64);

    let formatted = format_nav_with_precision(nav_per_token, decimals);
    assert_eq!(formatted, "2.00000000");
}

#[test]
fn test_decimal_precision_handling() {
    let test_cases = vec![
        (8, 100_000_000u64, "1.00000000"),
        (6, 1_000_000u64, "1.000000"),
        (18, 1_000_000_000_000_000_000u64, "1.000000000000000000"),
    ];

    for (decimals, unit_value, expected) in test_cases {
        let formatted = format_nav_with_precision(unit_value, decimals);
        assert_eq!(formatted, expected);
    }
}

#[test]
fn test_asset_value_calculation() {
    let holding_amount = 50_000_000u64;
    let price_usd = 45_000_00000000u64;
    let decimals = 8u8;

    let value = calculate_holding_value_usd(holding_amount, price_usd, decimals).unwrap();
    assert_eq!(value, 22_500_00000000u64);

    let max_amount = u64::MAX;
    let max_price = u64::MAX;
    assert!(calculate_holding_value_usd(max_amount, max_price, decimals).is_err());
}

#[test]
fn test_slippage_calculation_logic() {
    let estimated_nav = 2_00000000u64;
    let _max_slippage = 5u8;
    let nav_tokens = 100_00000000u64;

    let base_amount = (nav_tokens as u128 * estimated_nav as u128) / 100_000_000u128;

    let max_ckusdc_with_slippage = (base_amount * 105 / 100) as u64;
    let min_ckusdc_with_slippage = (base_amount * 95 / 100) as u64;

    let expected_max = 210_00000000u64;
    let expected_min = 190_00000000u64;

    assert_eq!(max_ckusdc_with_slippage, expected_max);
    assert_eq!(min_ckusdc_with_slippage, expected_min);

    let actual_ckusdc = 200_00000000u64;
    assert!(actual_ckusdc <= max_ckusdc_with_slippage);
    assert!(actual_ckusdc >= min_ckusdc_with_slippage);
}

#[test]
fn test_slippage_tolerance_violations() {
    let estimated_nav = 2_00000000u64;
    let nav_tokens = 100_00000000u64;
    let _max_slippage = 5u8;

    let base_amount = (nav_tokens as u128 * estimated_nav as u128) / 100_000_000u128;
    let max_acceptable = (base_amount * 105 / 100) as u64;
    let min_acceptable = (base_amount * 95 / 100) as u64;

    let test_cases = vec![
        (220_00000000u64, false),
        (210_00000000u64, true),
        (200_00000000u64, true),
        (190_00000000u64, true),
        (180_00000000u64, false),
    ];

    for (price, should_be_valid) in test_cases {
        let is_within_slippage = price >= min_acceptable && price <= max_acceptable;
        assert_eq!(
            is_within_slippage,
            should_be_valid,
            "Price {} should be {} slippage bounds",
            price,
            if should_be_valid { "within" } else { "outside" }
        );
    }
}

#[test]
fn test_proportional_calculation_logic() {
    let total_nav_tokens = 1000_00000000u64;
    let user_nav_tokens = 100_00000000u64;
    let total_asset_holding = 1_00000000u64;

    let user_share_percentage = (user_nav_tokens as f64) / (total_nav_tokens as f64);
    assert_eq!(user_share_percentage, 0.1);

    let user_asset_share = (total_asset_holding as f64 * user_share_percentage) as u64;
    let expected_share = 10_000_000u64;
    assert_eq!(user_asset_share, expected_share);
}

#[test]
fn test_time_and_expiration_logic() {
    let base_time = 1699000000000000000u64;
    let quote_duration = 300_000_000_000u64;
    let transaction_timeout = 1800_000_000_000u64;

    let quote_expires_at = base_time + quote_duration;
    let transaction_timeout_at = base_time + transaction_timeout;

    assert_eq!(quote_expires_at, 1699000300000000000u64);
    assert_eq!(transaction_timeout_at, 1699001800000000000u64);
    assert!(transaction_timeout_at > quote_expires_at);

    let current_time = base_time + 600_000_000_000u64;
    let is_quote_expired = current_time > quote_expires_at;
    let is_transaction_expired = current_time > transaction_timeout_at;

    assert!(is_quote_expired);
    assert!(!is_transaction_expired);
}

#[test]
fn test_nav_calculation_edge_cases() {
    let nav_zero_tokens = calculate_precise_nav_per_token(1000_00000000u64, 0u64, 8u8);
    assert_eq!(nav_zero_tokens, 0u64);

    let nav_zero_value = calculate_precise_nav_per_token(0u64, 100_00000000u64, 8u8);
    assert_eq!(nav_zero_value, 0u64);

    let nav_small = calculate_precise_nav_per_token(1u64, 1u64, 8u8);
    assert_eq!(nav_small, 1u64);

    let formatted_zero = format_nav_with_precision(0u64, 8u8);
    assert_eq!(formatted_zero, "0.00000000");

    let formatted_max = format_nav_with_precision(999_99999999u64, 8u8);
    assert_eq!(formatted_max, "999.99999999");
}

#[test]
fn test_asset_holding_calculation_errors() {
    let valid_calc = calculate_holding_value_usd(100_000_000u64, 50000_00000000u64, 8u8);
    assert!(valid_calc.is_ok());
    assert_eq!(valid_calc.unwrap(), 50000_00000000u64);

    let invalid_decimals = calculate_holding_value_usd(100_000_000u64, 50000_00000000u64, 25u8);
    assert!(invalid_decimals.is_err());

    let overflow_calc = calculate_holding_value_usd(u64::MAX, u64::MAX, 8u8);
    assert!(overflow_calc.is_err());

    let zero_amount = calculate_holding_value_usd(0u64, 50000_00000000u64, 8u8);
    assert!(zero_amount.is_ok());
    assert_eq!(zero_amount.unwrap(), 0u64);

    let zero_price = calculate_holding_value_usd(100_000_000u64, 0u64, 8u8);
    assert!(zero_price.is_ok());
    assert_eq!(zero_price.unwrap(), 0u64);
}

#[test]
fn test_nav_per_token_calculation_precision() {
    let total_usd_value = 1000_00000000u64;
    let total_tokens = 1000u64;
    let precision_decimals = 8u8;

    let nav_per_token = calculate_precise_nav_per_token(total_usd_value, total_tokens, precision_decimals);
    assert_eq!(nav_per_token, 100_000_000u64, "NAV should be $1.00 per token with 8 decimals");

    let nav_per_token_2 = calculate_precise_nav_per_token(500_00000000u64, 100u64, precision_decimals);
    assert_eq!(nav_per_token_2, 500_000_000u64, "NAV should be $5.00 per token with 8 decimals");

    let zero_tokens_nav = calculate_precise_nav_per_token(total_usd_value, 0, precision_decimals);
    assert_eq!(zero_tokens_nav, 0u64, "Zero tokens should return zero NAV");

    let nav_6_decimals = calculate_precise_nav_per_token(total_usd_value, total_tokens, 6);
    assert_eq!(nav_6_decimals, 1_000_000u64, "NAV should be $1.000000 with 6 decimals");
}

#[test]
fn test_nav_calculation_overflow_protection() {
    let large_usd_value = u64::MAX / 1_000_000;
    let total_tokens = 1u64;
    let precision_decimals = 8u8;

    let nav_result =
        calculate_nav_per_token_with_supply_validation(large_usd_value, total_tokens, precision_decimals);
    assert!(nav_result.is_ok());

    let excessive_precision_result =
        calculate_nav_per_token_with_supply_validation(1000_00000000u64, 1000u64, 25);

    assert!(excessive_precision_result.is_err());
    assert!(excessive_precision_result
        .unwrap_err()
        .message()
        .contains("Precision decimals cannot exceed 18"));
}

#[test]
fn test_holding_value_calculation_with_real_icrc_decimals() {
    let ckbtc_amount = 100_000_000u64;
    let btc_price_usd = get_mock_oracle_price("BTC");

    let holding_value = calculate_holding_value_usd(ckbtc_amount, btc_price_usd, 8).unwrap();
    assert_eq!(holding_value, 100_000_00_000_000u64, "1 BTC at $100k should equal $100k USD");

    let cketh_amount_small = 1_000_000_000_000_000u64;
    let eth_price_usd = get_mock_oracle_price("ETH");

    let cketh_value = calculate_holding_value_usd(cketh_amount_small, eth_price_usd, 18).unwrap();
    assert_eq!(cketh_value, 4_00_000_000u64, "0.001 ETH at $4k should equal $4.00 USD");

    let ckusdc_amount = 1000_000000u64;
    let usdc_price_usd = get_mock_oracle_price("USDC");

    let ckusdc_value = calculate_holding_value_usd(ckusdc_amount, usdc_price_usd, 6).unwrap();
    assert_eq!(ckusdc_value, 1000_00_000_000u64, "1000 USDC at $1 should equal $1000 USD");

    let half_btc = 50_000_000u64;
    let half_btc_value = calculate_holding_value_usd(half_btc, btc_price_usd, 8).unwrap();
    assert_eq!(half_btc_value, 50_000_00_000_000u64, "0.5 BTC at $100k should equal $50k USD");
}

#[test]
fn test_decimal_conversion_accuracy() {
    let amount_18_decimals = 1_000_000_000_000_000_000u64;
    let amount_8_decimals = convert_amount_between_decimals(amount_18_decimals, 18, 8).unwrap();
    assert_eq!(amount_8_decimals, 100_000_000u64);

    let amount_6_decimals = 1_000_000u64;
    let amount_8_decimals_converted = convert_amount_between_decimals(amount_6_decimals, 6, 8).unwrap();
    assert_eq!(amount_8_decimals_converted, 100_000_000u64);

    let same_decimals = convert_amount_between_decimals(1000u64, 8, 8).unwrap();
    assert_eq!(same_decimals, 1000u64);

    let overflow_conversion = convert_amount_between_decimals(u64::MAX, 6, 18);
    assert!(overflow_conversion.is_err());
    assert!(overflow_conversion
        .unwrap_err()
        .message()
        .contains("Amount overflow during decimal conversion"));
}

#[test]
fn test_usd_normalization_accuracy() {
    let usd_value = normalize_amount_to_usd(10_000_000u64, 8u8, 10000_00000000u64).unwrap();
    assert_eq!(usd_value, 1000_00000000u64, "0.1 BTC at $10k should normalize to $1k USD");

    let eth_usd_value = normalize_amount_to_usd(10_000_000u64, 8u8, 1000_00000000u64).unwrap();
    assert_eq!(eth_usd_value, 100_00000000u64, "0.1 ETH at $1k should normalize to $100 USD");

    let usdc_usd_value = normalize_amount_to_usd(100_000000u64, 6u8, 1_00000000u64).unwrap();
    assert_eq!(usdc_usd_value, 100_00000000u64, "100 USDC at $1 should normalize to $100 USD");

    let zero_amount = normalize_amount_to_usd(0u64, 8, 50000_00000000u64).unwrap();
    assert_eq!(zero_amount, 0u64, "Zero amount should normalize to zero USD");
}

#[test]
fn test_icrc_decimal_range_handling() {
    let usdc_value = calculate_holding_value_usd(1_000_000u64, get_mock_oracle_price("USDC"), 6).unwrap();
    assert_eq!(usdc_value, 1_00_000_000u64, "1 USDC should equal $1.00");

    let btc_value = calculate_holding_value_usd(1_000_000u64, get_mock_oracle_price("BTC"), 8).unwrap();
    assert_eq!(btc_value, 1_000_00_000_000u64, "0.01 BTC should equal $1,000");

    let eth_value =
        calculate_holding_value_usd(100_000_000_000_000u64, get_mock_oracle_price("ETH"), 18).unwrap();
    assert_eq!(eth_value, 40_000_000u64, "0.0001 ETH should equal $0.40");

    let amount_18_dec = 1_000_000_000_000_000_000u64;

    let amount_8_dec = convert_amount_between_decimals(amount_18_dec, 18, 8).unwrap();
    assert_eq!(amount_8_dec, 100_000_000u64, "18→8 decimal conversion should work");

    let amount_6_dec = convert_amount_between_decimals(amount_8_dec, 8, 6).unwrap();
    assert_eq!(amount_6_dec, 1_000_000u64, "8→6 decimal conversion should work");

    let amount_back_to_18 = convert_amount_between_decimals(amount_6_dec, 6, 18).unwrap();
    assert_eq!(amount_back_to_18, amount_18_dec, "6→18 decimal conversion should work");
}

#[test]
fn test_data_integrity_constraints() {
    let valid_decimals = [0u8, 6u8, 8u8, 18u8];
    for decimals in valid_decimals {
        assert!(decimals <= 18, "Decimals should be within reasonable bounds");
    }

    let invalid_decimals = [19u8, 25u8, 255u8];
    for decimals in invalid_decimals {
        let result = calculate_holding_value_usd(1000u64, 1_00_000_000u64, decimals);
        if decimals > 18 {
            assert!(result.is_err(), "Should reject excessive decimals: {}", decimals);
        }
    }

    let valid_percentages = [1u8, 50u8, 100u8];
    for percentage in valid_percentages {
        assert!(percentage <= 100, "Percentage should be within 0-100");
    }

    let test_allocations = vec![
        AssetAllocation { asset_id: AssetId("ckBTC".to_string()), percentage: 60u8 },
        AssetAllocation { asset_id: AssetId("ckETH".to_string()), percentage: 40u8 },
    ];

    let validation_result = validate_bundle_allocations(&test_allocations);
    assert!(validation_result.is_ok(), "Valid allocations should pass validation");

    let invalid_allocations = vec![
        AssetAllocation { asset_id: AssetId("ckBTC".to_string()), percentage: 60u8 },
        AssetAllocation { asset_id: AssetId("ckETH".to_string()), percentage: 50u8 },
    ];

    let invalid_result = validate_bundle_allocations(&invalid_allocations);
    assert!(invalid_result.is_err(), "Invalid total percentage should be rejected");
}

#[test]
fn test_nav_formatting_precision() {
    let formatted = format_nav_with_precision(123_456_789u64, 8);
    assert_eq!(formatted, "1.23456789");

    let formatted_whole = format_nav_with_precision(100_000_000u64, 8);
    assert_eq!(formatted_whole, "1.00000000");

    let formatted_zero = format_nav_with_precision(50u64, 0);
    assert_eq!(formatted_zero, "50");

    let formatted_trimmed = format_nav_with_precision(123_400_000u64, 8);
    assert_eq!(formatted_trimmed, "1.234");
}

#[test]
fn test_price_adjustment_for_different_decimals() {
    let usd_price_8_decimals = 1_00000000u64;

    let adjusted_for_18_decimals = adjust_price_for_decimals(usd_price_8_decimals, 18);
    assert!(adjusted_for_18_decimals > usd_price_8_decimals);

    let adjusted_for_6_decimals = adjust_price_for_decimals(usd_price_8_decimals, 6);
    assert_eq!(adjusted_for_6_decimals, 1_000000u64);

    let adjusted_for_8_decimals = adjust_price_for_decimals(usd_price_8_decimals, 8);
    assert_eq!(adjusted_for_8_decimals, usd_price_8_decimals);

    let adjusted_for_2_decimals = adjust_price_for_decimals(usd_price_8_decimals, 2);
    assert_eq!(adjusted_for_2_decimals, 1_00u64);
}

#[test]
fn test_allocation_percentage_validation() {
    let allocations = vec![
        AssetAllocation { asset_id: AssetId("ckBTC".to_string()), percentage: 60 },
        AssetAllocation { asset_id: AssetId("ckETH".to_string()), percentage: 40 },
    ];

    let result = validate_bundle_allocations(&allocations);
    assert!(result.is_ok());

    let invalid_percentage_allocations = vec![
        AssetAllocation { asset_id: AssetId("ckBTC".to_string()), percentage: 60 },
        AssetAllocation { asset_id: AssetId("ckETH".to_string()), percentage: 50 },
    ];

    let invalid_result = validate_bundle_allocations(&invalid_percentage_allocations);
    assert!(invalid_result.is_err());
    assert!(invalid_result
        .unwrap_err()
        .message()
        .contains("Total allocation percentage must equal 100%"));

    let duplicate_asset_allocations = vec![
        AssetAllocation { asset_id: AssetId("ckBTC".to_string()), percentage: 50 },
        AssetAllocation { asset_id: AssetId("ckBTC".to_string()), percentage: 50 },
    ];

    let duplicate_result = validate_bundle_allocations(&duplicate_asset_allocations);
    assert!(duplicate_result.is_err());
    assert!(duplicate_result.unwrap_err().message().contains("Duplicate asset in allocations"));

    let empty_allocations: Vec<AssetAllocation> = vec![];
    let empty_result = validate_bundle_allocations(&empty_allocations);
    assert!(empty_result.is_err());
    assert!(empty_result
        .unwrap_err()
        .message()
        .contains("Bundle must have at least one allocation"));
}

#[test]
fn test_complete_nav_calculation_flow_with_real_icrc_assets() {
    let btc_holding_amount = 100_000_000u64;
    let btc_price = get_mock_oracle_price("BTC");

    let btc_value = calculate_holding_value_usd(btc_holding_amount, btc_price, 8).unwrap();
    assert_eq!(btc_value, 100_000_00_000_000u64, "1 BTC at $100k = $100k");

    let eth_holding_amount = 250_000_000_000_000_000u64;
    let eth_price = get_mock_oracle_price("ETH");

    let eth_value = calculate_holding_value_usd(eth_holding_amount, eth_price, 18).unwrap();
    assert_eq!(eth_value, 1000_00_000_000u64, "0.25 ETH at $4k = $1k");

    let total_usd_value = btc_value + eth_value;
    assert_eq!(total_usd_value, 101_000_00_000_000u64, "Total portfolio = $101k");

    let total_nav_tokens = 1000u64;

    let nav_per_token = calculate_precise_nav_per_token(total_usd_value, total_nav_tokens, 8);
    assert_eq!(nav_per_token, 10_100_000_000u64, "NAV should be $101.00 per token");

    let formatted_nav = format_nav_with_precision(nav_per_token, 8);
    assert_eq!(formatted_nav, "101.00000000", "Formatted NAV should display as $101.00000000");

    let user_nav_tokens = 100u64;
    let user_portfolio_value_raw = user_nav_tokens as u128 * nav_per_token as u128;
    let user_portfolio_value_usd = user_portfolio_value_raw;

    assert_eq!(
        user_portfolio_value_usd, 1_010_000_000_000u128,
        "User should own $10.1k worth of assets (10% of $101k)"
    );

    let user_btc_proportion =
        (user_nav_tokens as u128 * btc_holding_amount as u128) / total_nav_tokens as u128;
    let user_eth_proportion =
        (user_nav_tokens as u128 * eth_holding_amount as u128) / total_nav_tokens as u128;

    assert_eq!(user_btc_proportion, 10_000_000u128, "User should own 0.1 BTC (10% of 1 BTC)");
    assert_eq!(
        user_eth_proportion, 25_000_000_000_000_000u128,
        "User should own 0.025 ETH (10% of 0.25 ETH)"
    );
}

#[test]
fn test_nav_calculation_edge_cases_mathematical() {
    let tiny_nav = calculate_precise_nav_per_token(1u64, 1000000u64, 8);
    assert_eq!(tiny_nav, 0u64, "Very small value should result in zero NAV due to rounding");

    let large_nav = calculate_precise_nav_per_token(1000000_00000000u64, 1u64, 8);
    assert_eq!(large_nav, 1000000_00000000u64, "Single token worth $1M should have $1M NAV");

    let value = 1000_00000000u64;
    let tokens = 3u64;

    let nav_8_decimals = calculate_precise_nav_per_token(value, tokens, 8);
    let nav_6_decimals = calculate_precise_nav_per_token(value, tokens, 6);

    assert_eq!(nav_8_decimals, 333_33333333u64, "8-decimal precision should be 333.33333333");
    assert_eq!(nav_6_decimals, 333_333333u64, "6-decimal precision should be 333.333333");
}

#[test]
fn holding_value_names_each_failure() {
    assert!(matches!(calculate_holding_value_usd(1, 1, 19), Err(Error::InvalidDecimals)));
    assert!(matches!(calculate_holding_value_usd(u64::MAX, u64::MAX, 0), Err(Error::ValueOverflow)));
    assert_eq!(calculate_holding_value_usd(7, 3, 0).unwrap(), 21);
    assert_eq!(calculate_holding_value_usd(u64::MAX, 10, 1).unwrap(), u64::MAX);
    assert_eq!(Error::InvalidDecimals.kind(), ErrorKind::Validation);
    assert_eq!(Error::ValueOverflow.kind(), ErrorKind::Overflow);
}

#[test]
fn conversion_to_fewer_decimals_truncates_toward_zero() {
    assert_eq!(convert_amount_between_decimals(1_999_999_999, 18, 9).unwrap(), 1);
    assert_eq!(convert_amount_between_decimals(999_999_999, 18, 9).unwrap(), 0);
    assert_eq!(convert_amount_between_decimals(u64::MAX, 255, 0).unwrap(), 0);
    assert_eq!(convert_amount_between_decimals(0, 0, 255).unwrap(), 0);
    assert!(matches!(convert_amount_between_decimals(1, 0, 20), Err(Error::ConversionOverflow)));
}

#[test]
fn conversion_round_trips_where_nothing_is_truncated() {
    let fine = 1_234_567_890_000_000_000u64;
    let coarse = convert_amount_between_decimals(fine, 18, 8).unwrap();
    assert_eq!(coarse, 123_456_789);
    assert_eq!(convert_amount_between_decimals(coarse, 8, 18).unwrap(), fine);

    for amount in [0u64, 1, 999_999, 1_000_000, 184_467_440_737_095_516] {
        let up = convert_amount_between_decimals(amount, 6, 8).unwrap();
        assert_eq!(up, amount * 100);
        assert_eq!(convert_amount_between_decimals(up, 8, 6).unwrap(), amount);
    }
}

#[test]
fn nav_scales_before_it_divides() {
    assert_eq!(
        calculate_nav_per_token_with_supply_validation(1_00000000, 3, 18).unwrap(),
        333_333_333_333_333_333u64
    );
    assert!(matches!(
        calculate_nav_per_token_with_supply_validation(1000_00000000, 3, 18),
        Err(Error::ConversionOverflow)
    ));
    assert_eq!(calculate_nav_per_token_with_supply_validation(10, 3, 9).unwrap(), 33);
    assert!(matches!(
        calculate_nav_per_token_with_supply_validation(u64::MAX, 1, 9),
        Err(Error::ConversionOverflow)
    ));
    assert!(matches!(
        calculate_nav_per_token_with_supply_validation(1, 1, 19),
        Err(Error::InvalidPrecision)
    ));
    assert_eq!(calculate_nav_per_token_with_supply_validation(1, 0, 19).unwrap(), 0);
}

#[test]
fn formatting_handles_wide_precisions() {
    assert_eq!(format_nav_with_precision(5, 20), "0.00000000000000000005");
    assert_eq!(format_nav_with_precision(50, 20), "0.0000000000000000005");
    assert_eq!(format_nav_with_precision(0, 3), "0.000");
    assert_eq!(format_nav_with_precision(u64::MAX, 0), "18446744073709551615");
    assert_eq!(format_nav_with_precision(u64::MAX, 19), "1.8446744073709551615");
    assert_eq!(format_nav_with_precision(1_000, 2), "10.00");
    assert_eq!(format_nav_with_precision(1_010, 2), "10.1");
}

#[test]
fn allocations_are_checked_in_order() {
    let alloc = |id: &str, percentage: u8| AssetAllocation { asset_id: AssetId(id.to_string()), percentage };
    let many: Vec<AssetAllocation> = (0..21).map(|i| alloc(&format!("a{}", i), 5)).collect();
    assert!(matches!(validate_bundle_allocations(&many), Err(Error::TooManyAllocations)));
    match validate_bundle_allocations(&[alloc("a", 60), alloc("a", 50)]) {
        Err(Error::TotalPercentage { got }) => assert_eq!(got, 110),
        other => panic!("unexpected {:?}", other),
    }
    assert!(matches!(
        validate_bundle_allocations(&[alloc("a", 100), alloc("a", 0)]),
        Err(Error::ZeroPercentage)
    ));
    match validate_bundle_allocations(&[alloc("a", 40), alloc("b", 20), alloc("b", 20), alloc("a", 20)]) {
        Err(Error::DuplicateAsset { asset_id }) => assert_eq!(asset_id.0, "b"),
        other => panic!("unexpected {:?}", other),
    }
    let message = validate_bundle_allocations(&[alloc("a", 60), alloc("b", 50)]).unwrap_err().message();
    assert_eq!(message, "Total allocation percentage must equal 100%, got 110%");
    let message = validate_bundle_allocations(&[alloc("a", 50), alloc("a", 50)]).unwrap_err().message();
    assert_eq!(message, "Duplicate asset in allocations: a");
}

#[test]
fn allocation_value_follows_the_price() {
    let value = calculate_allocation_value(1000, 50, 2_00000000).unwrap();
    assert_eq!(value.amount, 250);
    assert_eq!(value.value_usd, 500);
    let value = calculate_allocation_value_with_decimals(1000, 50, 2_00000000, 6).unwrap();
    assert_eq!(value.amount, 25_000);
    assert_eq!(value.value_usd, 5_000_000);
    assert!(matches!(calculate_allocation_value(1, 101, 1), Err(Error::PercentageTooHigh)));
    assert!(matches!(calculate_allocation_value(u64::MAX, 1, 1), Err(Error::AllocationOverflow)));
    assert_eq!(calculate_allocation_value(5, 100, 0).unwrap().amount, 0);
    assert_eq!(scale_amount_to_decimals(77, 3), 77);
    assert_eq!(adjust_price_for_decimals(u64::MAX, 9), u64::MAX);
    assert_eq!(adjust_price_for_decimals(3, 200), 3);
}
