//! Settlement engine for a tokenized multi-asset basket: fixed-point
//! valuation, quote authorization, fund escrow, the transaction state
//! machine, buy and sell settlement, and timeout recovery.
//!
//! The engine is a set of plain state values and total functions over them.
//! Calls to asset ledgers are not made here: each settlement flow is a step
//! function from the current state and the result of the previous ledger
//! call to the next state and the next ledger call to make.

pub mod admin;
pub mod asset_registry;
pub mod bundle_manager;
pub mod buy_flow;
pub mod error;
pub mod error_recovery;
pub mod holdings_tracker;
pub mod icrc151_client;
pub mod icrc2_client;
pub mod ledger;
pub mod memory;
pub mod nav_calculator;
pub mod nav_token;
pub mod oracle;
pub mod principal;
pub mod query_api;
pub mod quote_manager;
pub mod resolver_manager;
pub mod sell_flow;
pub mod sell_transaction;
pub mod settlement;
pub mod text;
pub mod transaction_manager;
pub mod types;
