use std::collections::HashMap;

use ed25519_dalek::{Signer, SigningKey};
use xfusion_backend::asset_registry::AssetRegistry;
use xfusion_backend::bundle_manager::{compute_platform_fee, BundleStore};
use xfusion_backend::buy_flow::{advance_buy, confirm_asset_deposit, BuyStage};
use xfusion_backend::error::{Error, ErrorKind};
use xfusion_backend::error_recovery::{
    decide_refund, detect_and_handle_timeouts, get_recovery_statistics, perform_emergency_recovery,
    refund_balance_query, validate_transaction_integrity, RecoveryLog,
};
use xfusion_backend::holdings_tracker::HoldingsTracker;
use xfusion_backend::ledger::{LedgerCall, LedgerRequest};
use xfusion_backend::memory::GlobalState;
use xfusion_backend::principal::PrincipalId;
use xfusion_backend::quote_manager::{
    complete_quote, consume_nonce, decide_signature, execute_quote, get_coordinator_public_key,
    hex_to_bytes, lock_quote_funds, serialize_quote_for_signing, set_coordinator_public_key,
    validate_coordinator_signature, AssignmentStore, QuoteObject, QuoteOperation, UsedNonces,
};
use xfusion_backend::sell_flow::{advance_sell, confirm_resolver_payment_and_complete_sell, SellStage};
use xfusion_backend::transaction_manager::{TransactionManager, TRANSACTION_TIMEOUT_NS};
use xfusion_backend::types::{
    AssetAllocation, AssetAmount, AssetCategory, AssetId, AssetInfo, AssetMetadata, AssetStandard,
    LockedFundType, OperationType, TokenLocation, TransactionStatus,
};

const NOW: u64 = 1_699_000_000_000_000_000;
const BTC_TOKEN: [u8; 32] = [1u8; 32];
const ETH_TOKEN: [u8; 32] = [2u8; 32];
const BUNDLE_TOKEN: [u8; 32] = [9u8; 32];

fn p(tag: u8) -> PrincipalId {
    PrincipalId::from_slice(&[tag, tag, tag]).unwrap()
}

fn admin() -> PrincipalId {
    p(1)
}

fn user() -> PrincipalId {
    p(2)
}

fn resolver() -> PrincipalId {
    p(3)
}

fn treasury() -> PrincipalId {
    p(4)
}

fn escrow() -> PrincipalId {
    p(5)
}

fn token_ledger() -> PrincipalId {
    p(6)
}

fn asset(id: &str, token_id: [u8; 32], decimals: u8) -> AssetInfo {
    AssetInfo {
        id: AssetId(id.to_string()),
        symbol: id.to_string(),
        name: id.to_string(),
        standard: AssetStandard::ICRC151 { token_id },
        ledger_canister: token_ledger(),
        minter_canister: None,
        oracle_ticker: None,
        decimals,
        is_active: true,
        added_at: NOW,
        metadata: AssetMetadata {
            logo_url: None,
            website: None,
            description: None,
            category: AssetCategory::Cryptocurrency,
        },
    }
}

fn hex(bytes: &[u8]) -> String {
    let mut out = String::new();
    for b in bytes {
        out.push_str(&format!("{:02x}", b));
    }
    out
}

struct World {
    config: GlobalState,
    nonces: UsedNonces,
    registry: AssetRegistry,
    bundles: BundleStore,
    holdings: HoldingsTracker,
    assignments: AssignmentStore,
    manager: TransactionManager,
    log: RecoveryLog,
    key: SigningKey,
    bundle_id: u64,
}

fn world() -> World {
    let key = SigningKey::from_bytes(&[7u8; 32]);
    let mut config = GlobalState::default();
    config.admin_principal = Some(admin());
    config.platform_treasury = Some(treasury());
    set_coordinator_public_key(&mut config, &admin(), &hex(key.verifying_key().as_bytes())).unwrap();
    let mut registry = AssetRegistry::new();
    registry.add_asset(&config, &admin(), asset("ckBTC", BTC_TOKEN, 8)).unwrap();
    registry.add_asset(&config, &admin(), asset("ckETH", ETH_TOKEN, 18)).unwrap();
    let mut bundles = BundleStore::new();
    config.bundle_counter = 1;
    let bundle_id = bundles
        .create_bundle(
            &mut config,
            &registry,
            "Blue chips".to_string(),
            "BLUE".to_string(),
            None,
            vec![
                AssetAllocation { asset_id: AssetId("ckBTC".to_string()), percentage: 60 },
                AssetAllocation { asset_id: AssetId("ckETH".to_string()), percentage: 40 },
            ],
            TokenLocation { ledger: token_ledger(), token_id: BUNDLE_TOKEN },
            admin(),
            NOW,
        )
        .unwrap();
    World {
        config,
        nonces: UsedNonces::new(),
        registry,
        bundles,
        holdings: HoldingsTracker::new(),
        assignments: AssignmentStore::new(),
        manager: TransactionManager::new(),
        log: RecoveryLog::new(),
        key,
        bundle_id,
    }
}

fn canonical(quote: &QuoteObject) -> String {
    let operation = match quote.operation {
        QuoteOperation::InitialBuy { usd_amount, nav_tokens } => {
            format!("{{\"InitialBuy\":{{\"usd_amount\":{},\"nav_tokens\":{}}}}}", usd_amount, nav_tokens)
        }
        QuoteOperation::Buy { ckusdc_amount } => {
            format!("{{\"Buy\":{{\"ckusdc_amount\":{}}}}}", ckusdc_amount)
        }
        QuoteOperation::Sell { nav_tokens } => format!("{{\"Sell\":{{\"nav_tokens\":{}}}}}", nav_tokens),
    };
    let assets = format!(
        "[{}]",
        quote
            .asset_amounts
            .iter()
            .map(|a| format!("{{\"asset_id\":\"{}\",\"amount\":{}}}", a.asset_id.0, a.amount))
            .collect::<Vec<_>>()
            .join(",")
    );
    format!(
        "{}|{}|{}|{}|{}|{}|{}|{}|{}",
        quote.bundle_id,
        operation,
        quote.resolver.to_text(),
        quote.nav_tokens,
        quote.ckusdc_amount,
        assets,
        quote.fees,
        quote.valid_until,
        quote.nonce
    )
}

fn sign(key: &SigningKey, mut quote: QuoteObject) -> QuoteObject {
    quote.coordinator_signature = key.sign(canonical(&quote).as_bytes()).to_bytes().to_vec();
    quote
}

fn buy_quote(w: &World, nonce: u64) -> QuoteObject {
    sign(
        &w.key,
        QuoteObject {
            bundle_id: w.bundle_id,
            operation: QuoteOperation::Buy { ckusdc_amount: 200_000_000 },
            resolver: resolver(),
            nav_tokens: 100,
            ckusdc_amount: 200_000_000,
            asset_amounts: vec![
                AssetAmount { asset_id: AssetId("ckBTC".to_string()), amount: 120_000 },
                AssetAmount { asset_id: AssetId("ckETH".to_string()), amount: 0 },
            ],
            fees: 1_000_000,
            valid_until: NOW + 300_000_000_000,
            nonce,
            coordinator_signature: vec![],
        },
    )
}

fn sell_quote(w: &World, nonce: u64) -> QuoteObject {
    sign(
        &w.key,
        QuoteObject {
            bundle_id: w.bundle_id,
            operation: QuoteOperation::Sell { nav_tokens: 40 },
            resolver: resolver(),
            nav_tokens: 40,
            ckusdc_amount: 80_000_000,
            asset_amounts: vec![AssetAmount { asset_id: AssetId("ckBTC".to_string()), amount: 48_000 }],
            fees: 0,
            valid_until: NOW + 300_000_000_000,
            nonce,
            coordinator_signature: vec![],
        },
    )
}

#[derive(Default)]
struct Ledger {
    settlement: HashMap<Vec<u8>, u64>,
    settlement_allowance: HashMap<(Vec<u8>, Vec<u8>), u64>,
    tokens: HashMap<([u8; 32], Vec<u8>), u64>,
    token_allowance: HashMap<([u8; 32], Vec<u8>, Vec<u8>), u64>,
    supply: HashMap<[u8; 32], u64>,
    memos: Vec<String>,
    fail_on: Option<usize>,
    calls: usize,
}

impl Ledger {
    fn take(map: &mut HashMap<Vec<u8>, u64>, who: &PrincipalId, amount: u64) -> Result<(), String> {
        let balance = map.entry(who.to_bytes()).or_insert(0);
        if *balance < amount {
            return Err("InsufficientFunds".to_string());
        }
        *balance -= amount;
        Ok(())
    }

    fn perform(&mut self, request: &LedgerRequest) -> Result<u64, String> {
        self.calls += 1;
        if self.fail_on == Some(self.calls) {
            return Err("TemporarilyUnavailable".to_string());
        }
        self.memos.push(String::from_utf8(request.memo.clone()).unwrap());
        self.call(&request.call)
    }

    fn call(&mut self, call: &LedgerCall) -> Result<u64, String> {
        match *call {
            LedgerCall::SettlementTransfer { to, amount } => {
                Ledger::take(&mut self.settlement, &escrow(), amount)?;
                *self.settlement.entry(to.to_bytes()).or_insert(0) += amount;
                Ok(1)
            }
            LedgerCall::SettlementTransferFrom { from, to, amount } => {
                let allowed = self.settlement_allowance.entry((from.to_bytes(), to.to_bytes())).or_insert(0);
                if *allowed < amount {
                    return Err("InsufficientAllowance".to_string());
                }
                *allowed -= amount;
                Ledger::take(&mut self.settlement, &from, amount)?;
                *self.settlement.entry(to.to_bytes()).or_insert(0) += amount;
                Ok(2)
            }
            LedgerCall::SettlementAllowance { owner, spender } => {
                Ok(*self.settlement_allowance.get(&(owner.to_bytes(), spender.to_bytes())).unwrap_or(&0))
            }
            LedgerCall::SettlementBalance { account } => {
                Ok(*self.settlement.get(&account.to_bytes()).unwrap_or(&0))
            }
            LedgerCall::TokenTransferFrom { token, from, to, amount } => {
                let allowed = self
                    .token_allowance
                    .entry((token.token_id, from.to_bytes(), to.to_bytes()))
                    .or_insert(0);
                if *allowed < amount {
                    return Err("InsufficientAllowance".to_string());
                }
                *allowed -= amount;
                let balance = self.tokens.entry((token.token_id, from.to_bytes())).or_insert(0);
                if *balance < amount {
                    return Err("InsufficientFunds".to_string());
                }
                *balance -= amount;
                *self.tokens.entry((token.token_id, to.to_bytes())).or_insert(0) += amount;
                Ok(3)
            }
            LedgerCall::TokenTransfer { token, to, amount } => {
                let balance = self.tokens.entry((token.token_id, escrow().to_bytes())).or_insert(0);
                if *balance < amount {
                    return Err("InsufficientFunds".to_string());
                }
                *balance -= amount;
                *self.tokens.entry((token.token_id, to.to_bytes())).or_insert(0) += amount;
                Ok(4)
            }
            LedgerCall::TokenMint { token, to, amount } => {
                *self.tokens.entry((token.token_id, to.to_bytes())).or_insert(0) += amount;
                *self.supply.entry(token.token_id).or_insert(0) += amount;
                Ok(5)
            }
            LedgerCall::TokenBurn { token, from, amount } => {
                let balance = self.tokens.entry((token.token_id, from.to_bytes())).or_insert(0);
                if *balance < amount {
                    return Err("InsufficientFunds".to_string());
                }
                *balance -= amount;
                *self.supply.entry(token.token_id).or_insert(0) -= amount;
                Ok(6)
            }
            LedgerCall::TokenAllowance { token, owner, spender } => Ok(*self
                .token_allowance
                .get(&(token.token_id, owner.to_bytes(), spender.to_bytes()))
                .unwrap_or(&0)),
            LedgerCall::TokenBalance { token, account } => {
                Ok(*self.tokens.get(&(token.token_id, account.to_bytes())).unwrap_or(&0))
            }
            LedgerCall::TokenSupply { token } => Ok(*self.supply.get(&token.token_id).unwrap_or(&0)),
        }
    }
}

fn funded_ledger() -> Ledger {
    let mut ledger = Ledger::default();
    ledger.settlement.insert(user().to_bytes(), 500_000_000);
    ledger.settlement_allowance.insert((user().to_bytes(), escrow().to_bytes()), 500_000_000);
    ledger.settlement.insert(resolver().to_bytes(), 500_000_000);
    ledger.settlement_allowance.insert((resolver().to_bytes(), escrow().to_bytes()), 500_000_000);
    ledger.tokens.insert((BTC_TOKEN, resolver().to_bytes()), 1_000_000);
    ledger.token_allowance.insert((BTC_TOKEN, resolver().to_bytes(), escrow().to_bytes()), 1_000_000);
    ledger
}

fn accept(w: &mut World, ledger: &mut Ledger, quote: &QuoteObject, now: u64) -> Result<u64, Error> {
    let execution = execute_quote(&w.config, &mut w.nonces, &w.bundles, &mut w.manager, quote, user(), now)?;
    let balance = ledger.call(&execution.balance_query);
    let pull = lock_quote_funds(&mut w.manager, &execution, escrow(), balance, now)?;
    let reply = pull.map(|request| ledger.perform(&request));
    complete_quote(&mut w.assignments, quote, &execution, reply)
}

fn accept_buy(w: &mut World, ledger: &mut Ledger, nonce: u64, now: u64) -> Result<u64, Error> {
    let quote = buy_quote(w, nonce);
    accept(w, ledger, &quote, now)
}

fn accept_sell(w: &mut World, ledger: &mut Ledger, nonce: u64, now: u64) -> Result<u64, Error> {
    let quote = sell_quote(w, nonce);
    accept(w, ledger, &quote, now)
}

fn settle_buy(w: &mut World, ledger: &mut Ledger, id: u64, caller: PrincipalId, now: u64) -> Result<(), Error> {
    let mut settlement = confirm_asset_deposit(
        &w.config,
        &w.bundles,
        &w.registry,
        &w.assignments,
        &mut w.manager,
        escrow(),
        id,
        caller,
        now,
    )?;
    while let Some(request) = settlement.next_request() {
        let reply = ledger.perform(&request);
        settlement = advance_buy(&mut w.holdings, &mut w.manager, settlement, reply, now)?;
    }
    assert_eq!(settlement.stage, BuyStage::Done);
    Ok(())
}

fn settle_sell(w: &mut World, ledger: &mut Ledger, id: u64, caller: PrincipalId, now: u64) -> Result<(), Error> {
    let mut settlement = confirm_resolver_payment_and_complete_sell(
        &w.config,
        &w.bundles,
        &w.registry,
        &w.assignments,
        &w.holdings,
        &mut w.manager,
        escrow(),
        id,
        caller,
        now,
    )?;
    while let Some(request) = settlement.next_request() {
        let reply = ledger.perform(&request);
        settlement = advance_sell(&mut w.holdings, &mut w.manager, settlement, reply, now)?;
    }
    assert_eq!(settlement.stage, SellStage::Done);
    Ok(())
}

#[test]
fn canonical_bytes_are_the_signed_text() {
    let w = world();
    let quote = buy_quote(&w, 1);
    assert_eq!(String::from_utf8(serialize_quote_for_signing(&quote)).unwrap(), canonical(&quote));
    assert_eq!(
        canonical(&quote),
        format!(
            "1|{{\"Buy\":{{\"ckusdc_amount\":200000000}}}}|{}|100|200000000|[{{\"asset_id\":\"ckBTC\",\"amount\":120000}},{{\"asset_id\":\"ckETH\",\"amount\":0}}]|1000000|{}|1",
            resolver().to_text(),
            NOW + 300_000_000_000
        )
    );
    let mut initial = buy_quote(&w, 2);
    initial.operation = QuoteOperation::InitialBuy { usd_amount: 5, nav_tokens: 6 };
    initial.asset_amounts = vec![];
    assert_eq!(String::from_utf8(serialize_quote_for_signing(&initial)).unwrap(), canonical(&initial));
    let sell = sell_quote(&w, 3);
    assert_eq!(String::from_utf8(serialize_quote_for_signing(&sell)).unwrap(), canonical(&sell));
}

#[test]
fn signature_is_checked_against_the_configured_key() {
    let w = world();
    let quote = buy_quote(&w, 1);
    assert!(validate_coordinator_signature(&w.config, &quote).is_ok());

    let mut tampered = buy_quote(&w, 1);
    tampered.ckusdc_amount += 1;
    assert!(matches!(validate_coordinator_signature(&w.config, &tampered), Err(Error::InvalidSignature)));

    let mut short = buy_quote(&w, 1);
    short.coordinator_signature.pop();
    assert!(matches!(validate_coordinator_signature(&w.config, &short), Err(Error::MalformedSignature)));

    let mut unset = GlobalState::default();
    assert!(matches!(validate_coordinator_signature(&unset, &quote), Err(Error::KeyNotConfigured)));
    unset.coordinator_public_key = Some(vec![1, 2, 3]);
    assert!(matches!(validate_coordinator_signature(&unset, &quote), Err(Error::MalformedKey)));

    let other = SigningKey::from_bytes(&[8u8; 32]);
    unset.coordinator_public_key = Some(other.verifying_key().as_bytes().to_vec());
    assert!(matches!(validate_coordinator_signature(&unset, &quote), Err(Error::InvalidSignature)));

    let mut not_a_point = None;
    for first in 0u8..=255 {
        let mut candidate = [0u8; 32];
        candidate[0] = first;
        if ed25519_dalek::VerifyingKey::from_bytes(&candidate).is_err() {
            not_a_point = Some(candidate);
            break;
        }
    }
    unset.coordinator_public_key = Some(not_a_point.unwrap().to_vec());
    assert!(matches!(validate_coordinator_signature(&unset, &quote), Err(Error::InvalidKey)));
    assert_eq!(Error::InvalidKey.kind(), ErrorKind::Signature);
}

#[test]
fn signature_verdict_names_the_first_failure() {
    assert!(matches!(decide_signature(None, 64, true, true), Err(Error::KeyNotConfigured)));
    assert!(matches!(decide_signature(Some(31), 64, true, true), Err(Error::MalformedKey)));
    assert!(matches!(decide_signature(Some(32), 63, false, true), Err(Error::InvalidKey)));
    assert!(matches!(decide_signature(Some(32), 63, true, true), Err(Error::MalformedSignature)));
    assert!(matches!(decide_signature(Some(32), 64, true, false), Err(Error::InvalidSignature)));
    assert!(decide_signature(Some(32), 64, true, true).is_ok());
}

#[test]
fn coordinator_key_must_be_thirty_two_bytes_of_hex() {
    let mut config = GlobalState::default();
    config.admin_principal = Some(admin());
    let key = "0x".to_string() + &"ab".repeat(32);
    assert!(matches!(set_coordinator_public_key(&mut config, &user(), &key), Err(Error::NotAdmin)));
    assert!(matches!(get_coordinator_public_key(&config), Err(Error::KeyNotConfigured)));
    assert!(matches!(
        set_coordinator_public_key(&mut config, &admin(), &"ab".repeat(31)),
        Err(Error::MalformedKey)
    ));
    assert!(matches!(
        set_coordinator_public_key(&mut config, &admin(), &"ab".repeat(33)),
        Err(Error::MalformedKey)
    ));
    assert!(matches!(set_coordinator_public_key(&mut config, &admin(), "abc"), Err(Error::OddHexLength)));
    match set_coordinator_public_key(&mut config, &admin(), "abcg") {
        Err(Error::InvalidHex { position }) => assert_eq!(position, 2),
        other => panic!("unexpected {:?}", other),
    }
    assert!(config.coordinator_public_key.is_none());
    set_coordinator_public_key(&mut config, &admin(), &key).unwrap();
    assert_eq!(get_coordinator_public_key(&config).unwrap(), vec![0xab; 32]);
}

#[test]
fn hex_is_decoded_pair_by_pair() {
    assert_eq!(hex_to_bytes("").unwrap(), Vec::<u8>::new());
    assert_eq!(hex_to_bytes("0x").unwrap(), Vec::<u8>::new());
    assert_eq!(hex_to_bytes("00ff10Ab").unwrap(), vec![0x00, 0xff, 0x10, 0xab]);
    assert_eq!(hex_to_bytes("0x0x0102").unwrap(), vec![1, 2]);
    assert!(matches!(hex_to_bytes("0"), Err(Error::OddHexLength)));
    match hex_to_bytes("00zz") {
        Err(e) => assert_eq!(e.message(), "Invalid hex at position 2"),
        Ok(_) => panic!("accepted"),
    }
    match hex_to_bytes("+f") {
        Err(Error::InvalidHex { position }) => assert_eq!(position, 0),
        other => panic!("unexpected {:?}", other),
    }
}

#[test]
fn a_nonce_is_consumed_once() {
    let mut nonces = UsedNonces::new();
    assert!(!nonces.is_used(7));
    assert!(consume_nonce(&mut nonces, 7, 100).is_ok());
    assert!(nonces.is_used(7));
    assert!(!nonces.is_used(8));
    assert!(matches!(consume_nonce(&mut nonces, 7, 200), Err(Error::ReplayDetected)));
    assert!(consume_nonce(&mut nonces, 3, 300).is_ok());
    assert_eq!(nonces.used_nonces(), vec![(3, 300), (7, 100)]);
    assert_eq!(Error::ReplayDetected.kind(), ErrorKind::Replay);
}

#[test]
fn basic_buy_settles() {
    let mut w = world();
    let mut ledger = funded_ledger();
    let quote = buy_quote(&w, 1);
    let supply_before = *ledger.supply.get(&BUNDLE_TOKEN).unwrap_or(&0);

    let id = accept(&mut w, &mut ledger, &quote, NOW).unwrap();
    assert_eq!(id, 1);
    let tx = w.manager.get_transaction(id).unwrap();
    assert_eq!(tx.status, TransactionStatus::FundsLocked);
    assert_eq!(tx.user, user());
    assert_eq!(tx.timeout_at, NOW + TRANSACTION_TIMEOUT_NS);
    let locks = w.manager.get_user_locked_funds(&user());
    assert_eq!(locks.len(), 1);
    assert_eq!(locks[0].amount, 200_000_000);
    assert_eq!(locks[0].fund_type, LockedFundType::CkUSDC);
    assert_eq!(locks[0].expires_at, tx.timeout_at);
    assert_eq!(w.assignments.get_assignment(id).unwrap().fees, 1_000_000);
    assert_eq!(ledger.settlement[&escrow().to_bytes()], 200_000_000);
    assert_eq!(ledger.memos, vec!["Lock ckUSDC for tx 1".to_string()]);

    settle_buy(&mut w, &mut ledger, id, resolver(), NOW + 10).unwrap();

    assert_eq!(ledger.supply[&BUNDLE_TOKEN], supply_before + 100);
    assert_eq!(ledger.tokens[&(BUNDLE_TOKEN, user().to_bytes())], 100);
    assert!(w.manager.get_user_locked_funds(&user()).is_empty());
    let tx = w.manager.get_transaction(id).unwrap();
    assert_eq!(tx.status, TransactionStatus::Completed);
    assert_eq!(tx.completed_at, Some(NOW + 10));
    assert_eq!(ledger.settlement[&treasury().to_bytes()], 1_000_000);
    assert_eq!(ledger.settlement[&resolver().to_bytes()], 500_000_000 + 199_000_000);
    assert_eq!(ledger.settlement[&escrow().to_bytes()], 0);
    assert_eq!(ledger.tokens[&(BTC_TOKEN, escrow().to_bytes())], 120_000);
    assert_eq!(w.holdings.get_bundle_holding(w.bundle_id, &AssetId("ckBTC".to_string())), 120_000);
    assert_eq!(w.holdings.get_bundle_holding(w.bundle_id, &AssetId("ckETH".to_string())), 0);
    assert_eq!(
        ledger.memos[1..],
        [
            "Buy tx 1 - ckBTC allowance".to_string(),
            "Buy tx 1 - ckBTC collateral".to_string(),
            "Buy tx 1 - mint 100 bundle tokens".to_string(),
            "Platform fee for buy tx 1 (50bps)".to_string(),
            "Payment for buy tx 1".to_string(),
        ]
    );
}

#[test]
fn expired_quote_is_rejected_and_keeps_its_nonce() {
    let mut w = world();
    let mut ledger = funded_ledger();
    let quote = buy_quote(&w, 5);
    let late = quote.valid_until + 1;
    match accept(&mut w, &mut ledger, &quote, late) {
        Err(e) => {
            assert_eq!(e.kind(), ErrorKind::Expired);
            assert_eq!(e.message(), format!("Quote expired at {}, current time is {}", quote.valid_until, late));
        }
        Ok(_) => panic!("accepted"),
    }
    assert!(!w.nonces.is_used(5));
    assert_eq!(w.manager.get_transaction_stats().total_transactions, 0);
    assert!(w.manager.get_user_locked_funds(&user()).is_empty());

    assert_eq!(accept(&mut w, &mut ledger, &quote, quote.valid_until).unwrap(), 1);
    assert!(w.nonces.is_used(5));
}

#[test]
fn a_nonce_admits_one_quote() {
    let mut w = world();
    let mut ledger = funded_ledger();
    let first = buy_quote(&w, 9);
    accept(&mut w, &mut ledger, &first, NOW).unwrap();
    assert!(matches!(accept(&mut w, &mut ledger, &first, NOW + 1), Err(Error::ReplayDetected)));
    let mut second = sell_quote(&w, 9);
    second.nav_tokens = 1;
    let second = sign(&w.key, second);
    assert!(matches!(accept(&mut w, &mut ledger, &second, NOW + 2), Err(Error::ReplayDetected)));
    assert_eq!(w.manager.get_transaction_stats().total_transactions, 1);
}

#[test]
fn a_consumed_nonce_stays_consumed_when_the_bundle_is_unknown() {
    let mut w = world();
    let mut ledger = funded_ledger();
    let mut quote = buy_quote(&w, 11);
    quote.bundle_id = 77;
    let quote = sign(&w.key, quote);
    match accept(&mut w, &mut ledger, &quote, NOW) {
        Err(e) => assert_eq!(e.message(), "Bundle 77 not found"),
        Ok(_) => panic!("accepted"),
    }
    assert!(w.nonces.is_used(11));
    assert_eq!(w.manager.get_transaction_stats().total_transactions, 0);
}

#[test]
fn a_lock_needs_the_available_balance() {
    let mut w = world();
    let mut ledger = funded_ledger();
    ledger.settlement.insert(user().to_bytes(), 300_000_000);
    accept_buy(&mut w, &mut ledger, 1, NOW).unwrap();
    ledger.settlement.insert(user().to_bytes(), 300_000_000);
    match accept_buy(&mut w, &mut ledger, 2, NOW) {
        Err(Error::InsufficientBalance { required, available }) => {
            assert_eq!(required, 200_000_000);
            assert_eq!(available, 100_000_000);
        }
        other => panic!("unexpected {:?}", other),
    }
    assert_eq!(w.manager.get_transaction(2).unwrap().status, TransactionStatus::Pending);
    assert_eq!(w.manager.get_user_total_locked_amount(user(), &LockedFundType::CkUSDC), 200_000_000);
    assert_eq!(
        w.manager
            .validate_sufficient_balance(user(), &LockedFundType::NAVTokens { bundle_id: 1 }, 5, 4)
            .unwrap_err()
            .message(),
        "Insufficient NAV token balance for bundle 1: 5 required, 4 available"
    );
}

#[test]
fn a_second_lock_is_refused_before_the_balance_is_looked_at() {
    let mut manager = TransactionManager::new();
    let id = manager.create_transaction(user(), resolver(), 1, OperationType::Buy, 10, 20, NOW).unwrap();
    assert!(!manager.is_fund_already_locked(id, &LockedFundType::CkUSDC));
    manager.lock_user_funds_with_validation(id, LockedFundType::CkUSDC, 20, 20, NOW).unwrap();
    assert!(manager.is_fund_already_locked(id, &LockedFundType::CkUSDC));
    assert!(matches!(
        manager.lock_user_funds_with_validation(id, LockedFundType::CkUSDC, 20, 0, NOW),
        Err(Error::AlreadyLocked)
    ));
    assert!(matches!(manager.lock_user_funds(id, LockedFundType::CkUSDC, 1, NOW), Err(Error::AlreadyLocked)));
    assert!(matches!(
        manager.lock_user_funds(id, LockedFundType::NAVTokens { bundle_id: 1 }, 1, NOW),
        Err(Error::NotPending)
    ));
    assert!(matches!(
        manager.lock_user_funds(99, LockedFundType::CkUSDC, 1, NOW),
        Err(Error::TransactionNotFound)
    ));
    assert_eq!(manager.get_user_locked_funds(&user()).len(), 1);
    assert_eq!(manager.get_lock_expiration_time(id, &LockedFundType::CkUSDC).unwrap(), NOW + TRANSACTION_TIMEOUT_NS);
    manager.extend_lock_expiration(id, &LockedFundType::CkUSDC, 5).unwrap();
    assert_eq!(manager.get_lock_expiration_time(id, &LockedFundType::CkUSDC).unwrap(), 5);
    assert_eq!(manager.unlock_user_funds(id, &LockedFundType::CkUSDC).unwrap(), 20);
    assert!(matches!(manager.unlock_user_funds(id, &LockedFundType::CkUSDC), Err(Error::NoLockFound)));
    assert!(matches!(
        manager.get_lock_expiration_time(id, &LockedFundType::CkUSDC),
        Err(Error::NoLockFound)
    ));
    assert!(matches!(
        manager.extend_lock_expiration(id, &LockedFundType::CkUSDC, 5),
        Err(Error::NoLockFound)
    ));
}

#[test]
fn a_final_transaction_never_changes() {
    let mut manager = TransactionManager::new();
    let id = manager.create_transaction(user(), resolver(), 1, OperationType::Buy, 10, 20, NOW).unwrap();
    manager.update_transaction_status(id, TransactionStatus::WaitingForResolver, NOW + 1).unwrap();
    let tx = manager.get_transaction(id).unwrap();
    assert_eq!(tx.updated_at, NOW + 1);
    assert_eq!(tx.completed_at, None);
    manager.update_transaction_status(id, TransactionStatus::Failed, NOW + 2).unwrap();
    let failed = manager.get_transaction(id).unwrap();
    assert_eq!(failed.completed_at, Some(NOW + 2));
    assert!(matches!(
        manager.update_transaction_status(id, TransactionStatus::Completed, NOW + 3),
        Err(Error::TransactionFinal)
    ));
    assert!(matches!(
        manager.update_transaction_status(id + 1, TransactionStatus::Completed, NOW + 3),
        Err(Error::TransactionNotFound)
    ));
    let after = manager.get_transaction(id).unwrap();
    assert_eq!(after.status, TransactionStatus::Failed);
    assert_eq!(after.updated_at, NOW + 2);
    assert!(matches!(manager.get_transaction(0), Err(Error::TransactionNotFound)));
}

#[test]
fn only_the_assigned_resolver_confirms_and_only_once() {
    let mut w = world();
    let mut ledger = funded_ledger();
    let id = accept_buy(&mut w, &mut ledger, 1, NOW).unwrap();
    assert!(matches!(settle_buy(&mut w, &mut ledger, id, user(), NOW), Err(Error::NotAssignedResolver)));
    assert!(matches!(settle_buy(&mut w, &mut ledger, 42, resolver(), NOW), Err(Error::AssignmentNotFound)));
    assert!(matches!(settle_sell(&mut w, &mut ledger, id, resolver(), NOW), Err(Error::NotSellOperation)));
    assert!(w.manager.validate_resolver_for_transaction(id, &resolver()).is_ok());
    assert!(matches!(
        w.manager.validate_resolver_for_transaction(id, &user()),
        Err(Error::NotAssignedResolver)
    ));
    settle_buy(&mut w, &mut ledger, id, resolver(), NOW).unwrap();
    assert!(matches!(settle_buy(&mut w, &mut ledger, id, resolver(), NOW), Err(Error::WrongStatus)));
    assert!(matches!(w.manager.validate_resolver_for_transaction(id, &resolver()), Err(Error::WrongStatus)));
    assert_eq!(ledger.supply[&BUNDLE_TOKEN], 100);
}

#[test]
fn a_failed_step_leaves_the_transaction_where_it_was() {
    let mut w = world();
    let mut ledger = funded_ledger();
    let id = accept_buy(&mut w, &mut ledger, 1, NOW).unwrap();
    ledger.fail_on = Some(ledger.calls + 3);
    match settle_buy(&mut w, &mut ledger, id, resolver(), NOW + 1) {
        Err(e) => {
            assert_eq!(e.kind(), ErrorKind::ExternalCall);
            assert_eq!(e.message(), "Call failed: TemporarilyUnavailable");
        }
        Ok(()) => panic!("settled"),
    }
    assert_eq!(w.manager.get_transaction(id).unwrap().status, TransactionStatus::AssetsTransferred);
    assert_eq!(w.manager.get_user_locked_funds(&user()).len(), 1);
    assert_eq!(w.holdings.get_bundle_holding(w.bundle_id, &AssetId("ckBTC".to_string())), 120_000);
    assert_eq!(ledger.supply.get(&BUNDLE_TOKEN), None);
    assert!(matches!(settle_buy(&mut w, &mut ledger, id, resolver(), NOW + 2), Err(Error::WrongStatus)));
}

#[test]
fn a_purchase_needs_the_resolvers_allowance() {
    let mut w = world();
    let mut ledger = funded_ledger();
    ledger.token_allowance.insert((BTC_TOKEN, resolver().to_bytes(), escrow().to_bytes()), 119_999);
    let id = accept_buy(&mut w, &mut ledger, 1, NOW).unwrap();
    match settle_buy(&mut w, &mut ledger, id, resolver(), NOW) {
        Err(Error::InsufficientAllowance { available, required }) => {
            assert_eq!(available, 119_999);
            assert_eq!(required, 120_000);
        }
        other => panic!("unexpected {:?}", other),
    }
    assert_eq!(w.manager.get_transaction(id).unwrap().status, TransactionStatus::InProgress);
    assert_eq!(w.holdings.get_bundle_holding(w.bundle_id, &AssetId("ckBTC".to_string())), 0);
}

#[test]
fn a_purchase_of_an_asset_outside_the_bundle_is_refused() {
    let mut w = world();
    let mut ledger = funded_ledger();
    w.registry.add_asset(&w.config, &admin(), asset("GLDT", [3u8; 32], 8)).unwrap();
    let mut quote = buy_quote(&w, 1);
    quote.asset_amounts.push(AssetAmount { asset_id: AssetId("GLDT".to_string()), amount: 1 });
    let quote = sign(&w.key, quote);
    let id = accept(&mut w, &mut ledger, &quote, NOW).unwrap();
    assert!(matches!(settle_buy(&mut w, &mut ledger, id, resolver(), NOW), Err(Error::AssetNotInBundle)));
    assert_eq!(w.manager.get_transaction(id).unwrap().status, TransactionStatus::FundsLocked);
}

#[test]
fn basic_sell_settles() {
    let mut w = world();
    let mut ledger = funded_ledger();
    let bought = accept_buy(&mut w, &mut ledger, 1, NOW).unwrap();
    settle_buy(&mut w, &mut ledger, bought, resolver(), NOW).unwrap();
    w.config.platform_treasury = None;

    let mut quote = sell_quote(&w, 2);
    quote.ckusdc_amount = 80_000_000;
    let quote = sign(&w.key, quote);
    let id = accept(&mut w, &mut ledger, &quote, NOW + 20).unwrap();
    let locks = w.manager.get_user_locked_funds(&user());
    assert_eq!(locks.len(), 1);
    assert_eq!(locks[0].fund_type, LockedFundType::NAVTokens { bundle_id: w.bundle_id });
    assert_eq!(locks[0].amount, 40);
    assert_eq!(w.assignments.get_assignment(id).unwrap().fees, 400_000);

    let user_before = ledger.settlement[&user().to_bytes()];
    let resolver_before = ledger.settlement[&resolver().to_bytes()];
    let first_call = ledger.memos.len();
    settle_sell(&mut w, &mut ledger, id, resolver(), NOW + 30).unwrap();

    assert_eq!(ledger.supply[&BUNDLE_TOKEN], 60);
    assert_eq!(ledger.settlement[&user().to_bytes()], user_before + 80_000_000);
    assert_eq!(ledger.settlement[&resolver().to_bytes()], resolver_before - 80_000_000);
    assert_eq!(ledger.tokens[&(BTC_TOKEN, escrow().to_bytes())], 72_000);
    assert_eq!(w.holdings.get_bundle_holding(w.bundle_id, &AssetId("ckBTC".to_string())), 72_000);
    assert!(w.manager.get_user_locked_funds(&user()).is_empty());
    assert_eq!(w.manager.get_transaction(id).unwrap().status, TransactionStatus::Completed);
    assert_eq!(
        ledger.memos[first_call..],
        [
            "Sell tx 2 - resolver allowance".to_string(),
            "Sell tx 2 - resolver payment".to_string(),
            "Sell tx 2 - transfer 48000 ckBTC".to_string(),
            "Sell tx 2 - burn 40 bundle tokens".to_string(),
            "Sell tx 2 - user proceeds".to_string(),
        ]
    );
}

#[test]
fn a_sell_pays_the_fee_where_a_treasury_is_set() {
    let mut w = world();
    let mut ledger = funded_ledger();
    let bought = accept_buy(&mut w, &mut ledger, 1, NOW).unwrap();
    settle_buy(&mut w, &mut ledger, bought, resolver(), NOW).unwrap();
    let id = accept_sell(&mut w, &mut ledger, 2, NOW).unwrap();
    let user_before = ledger.settlement[&user().to_bytes()];
    let treasury_before = ledger.settlement[&treasury().to_bytes()];
    settle_sell(&mut w, &mut ledger, id, resolver(), NOW).unwrap();
    assert_eq!(ledger.settlement[&treasury().to_bytes()], treasury_before + 400_000);
    assert_eq!(ledger.settlement[&user().to_bytes()], user_before + 79_600_000);
    assert_eq!(ledger.memos[ledger.memos.len() - 2], "Platform fee for sell tx 2 (50bps)");
}

#[test]
fn a_sell_needs_the_holdings_and_the_allowance() {
    let mut w = world();
    let mut ledger = funded_ledger();
    ledger.tokens.insert((BUNDLE_TOKEN, user().to_bytes()), 40);
    let id = accept_sell(&mut w, &mut ledger, 2, NOW).unwrap();
    assert!(matches!(settle_sell(&mut w, &mut ledger, id, resolver(), NOW), Err(Error::InsufficientHoldings)));
    assert!(matches!(settle_buy(&mut w, &mut ledger, id, resolver(), NOW), Err(Error::NotBuyOperation)));
    w.holdings.update_bundle_holdings(w.bundle_id, &AssetId("ckBTC".to_string()), 48_000, NOW).unwrap();
    ledger.settlement_allowance.insert((resolver().to_bytes(), escrow().to_bytes()), 1);
    match settle_sell(&mut w, &mut ledger, id, resolver(), NOW) {
        Err(e) => assert_eq!(e.message(), "Insufficient allowance: resolver has 1 but needs 80000000"),
        Ok(()) => panic!("settled"),
    }
    assert_eq!(w.manager.get_transaction(id).unwrap().status, TransactionStatus::InProgress);
}

#[test]
fn a_sell_lock_needs_the_token_balance() {
    let mut w = world();
    let mut ledger = funded_ledger();
    match accept_sell(&mut w, &mut ledger, 2, NOW) {
        Err(Error::InsufficientTokenBalance { bundle_id, required, available }) => {
            assert_eq!((bundle_id, required, available), (1, 40, 0));
        }
        other => panic!("unexpected {:?}", other),
    }
}

#[test]
fn the_timeout_sweep_recovers_each_transaction_once() {
    let mut w = world();
    let mut ledger = funded_ledger();
    let stuck = accept_buy(&mut w, &mut ledger, 1, NOW).unwrap();
    ledger.settlement.insert(user().to_bytes(), 400_000_000);
    let fresh = accept_buy(&mut w, &mut ledger, 2, NOW + 1_000).unwrap();
    let at_deadline = NOW + TRANSACTION_TIMEOUT_NS;

    let report = detect_and_handle_timeouts(&mut w.manager, &w.assignments, &mut w.log, at_deadline);
    assert_eq!(report.recovered, 0);
    assert_eq!(w.manager.get_user_locked_funds(&user()).len(), 2);

    let report = detect_and_handle_timeouts(&mut w.manager, &w.assignments, &mut w.log, at_deadline + 1);
    assert_eq!(report.recovered, 1);
    assert!(report.refunds.is_empty());
    let tx = w.manager.get_transaction(stuck).unwrap();
    assert_eq!(tx.status, TransactionStatus::TimedOut);
    assert_eq!(tx.completed_at, Some(at_deadline + 1));
    assert_eq!(w.manager.get_transaction(fresh).unwrap().status, TransactionStatus::FundsLocked);
    let locks = w.manager.get_user_locked_funds(&user());
    assert_eq!(locks.len(), 1);
    assert_eq!(locks[0].transaction_id, fresh);
    assert_eq!(w.log.events().len(), 1);
    assert_eq!(w.log.events()[0].transaction_id, stuck);

    let again = detect_and_handle_timeouts(&mut w.manager, &w.assignments, &mut w.log, at_deadline + 1);
    assert_eq!(again.recovered, 0);
    assert!(again.refunds.is_empty());
    assert_eq!(w.manager.get_user_locked_funds(&user()).len(), 1);
    assert_eq!(w.manager.get_transaction(stuck).unwrap().updated_at, at_deadline + 1);
    assert_eq!(w.log.events().len(), 1);

    let stats = get_recovery_statistics(&w.log, at_deadline + 2);
    assert_eq!(stats.total_recoveries, 1);
    assert_eq!(stats.recoveries_last_24h, 1);
    let stats = get_recovery_statistics(&w.log, at_deadline + 1 + 86_400_000_000_000);
    assert_eq!(stats.recoveries_last_24h, 0);
    assert!(matches!(settle_buy(&mut w, &mut ledger, stuck, resolver(), at_deadline + 2), Err(Error::WrongStatus)));
}

#[test]
fn a_purchase_that_timed_out_in_progress_is_refunded_from_escrow() {
    let mut w = world();
    let mut ledger = funded_ledger();
    ledger.token_allowance.insert((BTC_TOKEN, resolver().to_bytes(), escrow().to_bytes()), 0);
    let id = accept_buy(&mut w, &mut ledger, 1, NOW).unwrap();
    assert!(settle_buy(&mut w, &mut ledger, id, resolver(), NOW).is_err());
    assert_eq!(w.manager.get_transaction(id).unwrap().status, TransactionStatus::InProgress);

    let report = detect_and_handle_timeouts(&mut w.manager, &w.assignments, &mut w.log, NOW + TRANSACTION_TIMEOUT_NS + 1);
    assert_eq!(report.recovered, 1);
    assert_eq!(report.refunds.len(), 1);
    let candidate = report.refunds[0];
    assert_eq!((candidate.transaction_id, candidate.user, candidate.amount), (id, user(), 200_000_000));

    let balance = ledger.call(&refund_balance_query(escrow()));
    let refund = decide_refund(&candidate, balance).unwrap().unwrap();
    assert_eq!(refund.call, LedgerCall::SettlementTransfer { to: user(), amount: 200_000_000 });
    assert_eq!(String::from_utf8(refund.memo.clone()).unwrap(), "Refund for failed tx 1");
    ledger.perform(&refund).unwrap();
    assert_eq!(ledger.settlement[&user().to_bytes()], 500_000_000);

    assert!(decide_refund(&candidate, Ok(199_999_999)).unwrap().is_none());
    assert!(matches!(
        decide_refund(&candidate, Err("down".to_string())),
        Err(Error::LedgerCallFailed { .. })
    ));
}

#[test]
fn integrity_is_checked_for_open_transactions() {
    let mut w = world();
    let mut ledger = funded_ledger();
    let id = accept_buy(&mut w, &mut ledger, 1, NOW).unwrap();
    assert!(validate_transaction_integrity(&w.manager, id, NOW).is_ok());
    assert!(matches!(validate_transaction_integrity(&w.manager, 9, NOW), Err(Error::TransactionNotFound)));
    let expiry = NOW + TRANSACTION_TIMEOUT_NS;
    assert!(validate_transaction_integrity(&w.manager, id, expiry).is_ok());
    assert!(matches!(validate_transaction_integrity(&w.manager, id, expiry + 1), Err(Error::LockExpired)));
    assert_eq!(w.manager.cleanup_expired_locks(expiry - 1), 0);
    assert_eq!(w.manager.cleanup_expired_locks(expiry), 1);
    assert!(matches!(
        validate_transaction_integrity(&w.manager, id, NOW),
        Err(Error::MissingSettlementLock)
    ));
    w.manager.update_transaction_status(id, TransactionStatus::Failed, NOW).unwrap();
    assert!(validate_transaction_integrity(&w.manager, id, expiry + 1).is_ok());
}

#[test]
fn emergency_recovery_releases_the_open_locks_of_one_user() {
    let mut manager = TransactionManager::new();
    let a = manager.create_transaction(user(), resolver(), 1, OperationType::Buy, 10, 20, NOW).unwrap();
    let b = manager.create_transaction(user(), resolver(), 1, OperationType::Sell, 7, 30, NOW).unwrap();
    let c = manager.create_transaction(p(8), resolver(), 1, OperationType::Buy, 10, 50, NOW).unwrap();
    manager.lock_user_funds(a, LockedFundType::CkUSDC, 20, NOW).unwrap();
    manager.lock_user_funds(b, LockedFundType::NAVTokens { bundle_id: 1 }, 7, NOW).unwrap();
    manager.lock_user_funds(c, LockedFundType::CkUSDC, 50, NOW).unwrap();
    assert_eq!(manager.get_user_transaction_summary(user()).current_locked_funds, 27);

    let report = perform_emergency_recovery(&mut manager, user(), NOW + 5);
    assert_eq!(report.user, user());
    assert_eq!(report.recovered_ckusdc, 20);
    assert_eq!(report.recovered_nav_tokens, 7);
    assert!(report.recovered_assets.is_empty());
    assert_eq!(report.timestamp, NOW + 5);
    assert!(manager.get_user_locked_funds(&user()).is_empty());
    assert_eq!(manager.get_user_locked_funds(&p(8)).len(), 1);

    let again = perform_emergency_recovery(&mut manager, user(), NOW + 6);
    assert_eq!((again.recovered_ckusdc, again.recovered_nav_tokens), (0, 0));
    assert_eq!(manager.unlock_all_transaction_funds(c).unwrap(), vec![(LockedFundType::CkUSDC, 50)]);
    assert!(manager.unlock_all_transaction_funds(c).unwrap().is_empty());
    assert!(matches!(manager.unlock_all_transaction_funds(99), Err(Error::TransactionNotFound)));
}

#[test]
fn statistics_sum_over_the_transactions() {
    let mut manager = TransactionManager::new();
    let a = manager.create_transaction(user(), resolver(), 1, OperationType::Buy, 10, 20, NOW).unwrap();
    let b = manager.create_transaction(user(), resolver(), 2, OperationType::Sell, 7, 30, NOW + 5).unwrap();
    let c = manager.create_transaction(p(8), resolver(), 1, OperationType::Buy, 1, 50, NOW + 9).unwrap();
    manager.update_transaction_status(a, TransactionStatus::Completed, NOW + 4_000_000).unwrap();
    manager.update_transaction_status(c, TransactionStatus::TimedOut, NOW + 10).unwrap();

    let stats = manager.get_transaction_stats();
    assert_eq!(stats.total_transactions, 3);
    assert_eq!(stats.completed_transactions, 1);
    assert_eq!(stats.failed_transactions, 1);
    assert_eq!(stats.pending_transactions, 1);
    assert_eq!(stats.total_volume_ckusdc, 100);
    assert_eq!(stats.total_nav_tokens_minted, 11);
    assert_eq!(stats.total_nav_tokens_burned, 7);
    assert_eq!(stats.average_completion_time_ms, 4);

    let history = manager.get_bundle_transaction_history(1);
    assert_eq!(history.bundle_id, 1);
    assert_eq!(history.total_buy_transactions, 2);
    assert_eq!(history.total_sell_transactions, 0);
    assert_eq!(history.total_volume_bought, 20);
    assert_eq!(history.total_volume_sold, 0);
    assert_eq!(history.last_transaction_at, Some(NOW + 9));
    assert_eq!(history.active_transactions, 0);
    assert_eq!(manager.get_bundle_transaction_history(3).last_transaction_at, None);

    let summary = manager.get_user_transaction_summary(user());
    assert_eq!(summary.total_transactions, 2);
    assert_eq!(summary.buy_transactions, 1);
    assert_eq!(summary.sell_transactions, 1);
    assert_eq!(summary.total_volume_ckusdc, 20);
    assert_eq!(summary.last_transaction_at, Some(NOW + 5));

    assert_eq!(manager.get_transaction_summary(a).unwrap().duration_ms, Some(4));
    assert_eq!(manager.get_transaction_summary(b).unwrap().duration_ms, None);
    assert_eq!(manager.get_user_transactions(&user()).len(), 2);
    assert_eq!(manager.get_transactions_by_status(TransactionStatus::Pending)[0].id, b);
    assert_eq!(manager.get_transaction_by_request(b).unwrap().id, b);
    assert!(matches!(manager.get_transaction_by_request(9), Err(Error::TransactionNotFoundForRequest)));
}

#[test]
fn platform_fee_is_basis_points_of_the_amount() {
    assert_eq!(compute_platform_fee(200_000_000, 50), 1_000_000);
    assert_eq!(compute_platform_fee(199, 50), 0);
    assert_eq!(compute_platform_fee(u64::MAX, 10_000), u64::MAX);
    assert_eq!(compute_platform_fee(u64::MAX, 20_000), u64::MAX);
    assert_eq!(compute_platform_fee(1_000, 10_000), 1_000);
}
