//! The records that the engine stores, takes and reports.

use vstd::prelude::*;
use vstd::std_specs::cmp::PartialEqSpecImpl;
use crate::principal::PrincipalId;

verus! {

/// The name of an asset, such as `ckBTC`.
#[derive(Debug, Eq, Hash, PartialOrd, Ord)]
pub struct AssetId(pub String);

impl View for AssetId {
    type V = Seq<char>;

    open spec fn view(&self) -> Seq<char> {
        self.0@
    }
}

impl Clone for AssetId {
    fn clone(&self) -> (r: Self)
        ensures
            r == *self,
    {
        AssetId(self.0.clone())
    }
}

impl PartialEq for AssetId {
    fn eq(&self, other: &AssetId) -> (r: bool) {
        self.0 == other.0
    }
}

impl PartialEqSpecImpl for AssetId {
    open spec fn obeys_eq_spec() -> bool {
        true
    }

    open spec fn eq_spec(&self, other: &AssetId) -> bool {
        self.0@ == other.0@
    }
}

/// How an asset's ledger is addressed.
#[derive(Clone, Copy, Debug, PartialEq, Eq)]
pub enum AssetStandard {
    /// The ledger holds this asset alone.
    ICRC2,
    /// The ledger holds several assets and numbers them.
    MTLS { asset_id: u64 },
    /// The ledger holds several tokens and names each by 32 bytes.
    ICRC151 { token_id: [u8; 32] },
}

/// A token on a ledger that holds several: the ledger and the token's name
/// on it.
#[derive(Clone, Copy, Debug, PartialEq, Eq)]
pub struct TokenLocation {
    pub ledger: PrincipalId,
    pub token_id: [u8; 32],
}

/// An asset that bundles can hold.
#[derive(Clone, Debug)]
pub struct AssetInfo {
    pub id: AssetId,
    pub symbol: String,
    pub name: String,
    pub standard: AssetStandard,
    pub ledger_canister: PrincipalId,
    pub minter_canister: Option<PrincipalId>,
    pub oracle_ticker: Option<String>,
    pub decimals: u8,
    pub is_active: bool,
    pub added_at: u64,
    pub metadata: AssetMetadata,
}

/// The changes to make to an asset; `None` leaves a field as it is.
#[derive(Clone, Debug)]
pub struct AssetInfoUpdate {
    pub name: Option<String>,
    pub oracle_ticker: Option<String>,
    pub minter_canister: Option<PrincipalId>,
    pub is_active: Option<bool>,
    pub metadata: Option<AssetMetadata>,
}

/// A bundle: its constituents, the token that stands for it, and its fee.
#[derive(Clone, Debug)]
pub struct BundleConfig {
    pub id: u64,
    pub name: String,
    pub symbol: String,
    pub description: Option<String>,
    pub creator: PrincipalId,
    pub allocations: Vec<AssetAllocation>,
    pub token_location: TokenLocation,
    pub created_at: u64,
    pub is_active: bool,
    pub platform_fee_bps: Option<u64>,
}

/// A bundle as a listing shows it.
#[derive(Clone, Debug)]
pub struct BundleSummary {
    pub id: u64,
    pub name: String,
    pub creator: PrincipalId,
    pub created_at: u64,
    pub allocations: Vec<AssetAllocation>,
    pub total_nav_tokens: u64,
    pub holder_count: u32,
    pub is_active: bool,
}

/// A user's bundle tokens of one bundle.
#[derive(Clone, Copy, Debug, PartialEq, Eq)]
pub struct XFusionNAVToken {
    pub bundle_id: u64,
    pub owner: PrincipalId,
    pub amount: u64,
    pub last_updated: u64,
}

/// What one redemption takes of one asset, and what it leaves.
#[derive(Debug)]
pub struct AssetWithdrawal {
    pub asset_id: AssetId,
    pub amount: u64,
    pub remaining_in_bundle: u64,
}

/// What kind of asset it is.
#[derive(Clone, Debug, PartialEq)]
pub enum AssetCategory {
    Cryptocurrency,
    Stablecoin,
    CommodityBacked,
    Stocks,
    Other(String),
}

/// Descriptive data of an asset.
#[derive(Clone, Debug)]
pub struct AssetMetadata {
    pub logo_url: Option<String>,
    pub website: Option<String>,
    pub description: Option<String>,
    pub category: AssetCategory,
}

/// A selection of assets.
#[derive(Clone, Debug)]
pub struct AssetFilter {
    pub active_only: bool,
    pub category: Option<AssetCategory>,
    pub standard: Option<AssetStandard>,
}

/// One constituent of a bundle: an asset and its share in percent.
#[derive(Debug)]
pub struct AssetAllocation {
    pub asset_id: AssetId,
    pub percentage: u8,
}

impl Clone for AssetAllocation {
    fn clone(&self) -> (r: Self)
        ensures
            r == *self,
    {
        AssetAllocation { asset_id: self.asset_id.clone(), percentage: self.percentage }
    }
}

/// An amount of one asset, in the asset's own base units.
#[derive(Debug)]
pub struct AssetAmount {
    pub asset_id: AssetId,
    pub amount: u64,
}

impl Clone for AssetAmount {
    fn clone(&self) -> (r: Self)
        ensures
            r == *self,
    {
        AssetAmount { asset_id: self.asset_id.clone(), amount: self.amount }
    }
}

/// Counts of what the engine holds.
#[derive(Clone, Debug)]
pub struct CanisterInfo {
    pub version: String,
    pub total_assets: u64,
    pub total_bundles: u64,
    pub total_nav_tokens: u64,
}

/// An asset as a listing shows it.
#[derive(Clone, Debug)]
pub struct AssetSummary {
    pub id: AssetId,
    pub symbol: String,
    pub name: String,
    pub category: AssetCategory,
    pub standard: AssetStandard,
    pub is_active: bool,
    pub bundles_using: u32,
}

/// A user's position in one bundle.
#[derive(Clone, Debug)]
pub struct NAVTokenHolding {
    pub bundle_id: u64,
    pub bundle_name: String,
    pub amount: u64,
    pub last_updated: u64,
}

/// The number of entries in each catalog.
#[derive(Clone, Copy, Debug, PartialEq, Eq, Structural)]
pub struct MemoryUsage {
    pub asset_registry_entries: u64,
    pub bundle_storage_entries: u64,
    pub nav_token_storage_entries: u64,
}

/// What an operator sees of the engine.
#[derive(Clone, Copy, Debug, PartialEq, Eq, Structural)]
pub struct CanisterStatus {
    pub is_admin_set: bool,
    pub total_assets: u64,
    pub total_bundles: u64,
    pub total_nav_tokens: u64,
    pub memory_usage: MemoryUsage,
}

/// A price in USD with eight decimals, and when and where it was taken.
#[derive(Clone, Debug)]
pub struct AssetPrice {
    pub asset_id: AssetId,
    pub price_usd: u64,
    pub timestamp: u64,
    pub source: String,
    pub confidence: u8,
}

/// How much of one asset a bundle holds.
#[derive(Debug)]
pub struct BundleHolding {
    pub bundle_id: u64,
    pub asset_id: AssetId,
    pub amount: u64,
    pub last_updated: u64,
}

impl Clone for BundleHolding {
    fn clone(&self) -> (r: Self)
        ensures
            r == *self,
    {
        BundleHolding {
            bundle_id: self.bundle_id,
            asset_id: self.asset_id.clone(),
            amount: self.amount,
            last_updated: self.last_updated,
        }
    }
}

/// One asset's part of a withdrawal, with its estimated value.
#[derive(Clone, Debug)]
pub struct WithdrawalAssetBreakdown {
    pub asset_id: AssetId,
    pub amount: u64,
    pub estimated_usd_value: u64,
    pub price_per_unit: u64,
}

/// A bundle token's recorded supply against the supply summed over holders.
#[derive(Clone, Copy, Debug, PartialEq, Eq, Structural)]
pub struct SupplyValidationResult {
    pub bundle_id: u64,
    pub recorded_total_supply: u64,
    pub calculated_total_supply: u64,
    pub is_consistent: bool,
    pub discrepancy: u64,
    pub validation_timestamp: u64,
}

/// A bundle's value per token at two precisions.
#[derive(Clone, Debug)]
pub struct NAVPrecisionReport {
    pub bundle_id: u64,
    pub total_usd_value: u64,
    pub total_tokens: u64,
    pub nav_per_token_8_decimals: u64,
    pub nav_per_token_18_decimals: u64,
    pub formatted_nav_display: String,
    pub precision_loss_amount: u64,
    pub calculation_timestamp: u64,
}

/// Whether a settlement mints bundle tokens or redeems them.
#[derive(Clone, Copy, Debug, PartialEq, Eq, Structural)]
pub enum OperationType {
    Buy,
    Sell,
}

/// Where a settlement stands.
#[derive(Clone, Copy, Debug, PartialEq, Eq, Structural)]
pub enum TransactionStatus {
    Pending,
    FundsLocked,
    WaitingForResolver,
    InProgress,
    AssetsTransferred,
    Completed,
    Failed,
    TimedOut,
}

/// Which of a user's funds a lock reserves.
#[derive(Clone, Copy, Debug, PartialEq, Eq, Structural)]
pub enum LockedFundType {
    CkUSDC,
    NAVTokens { bundle_id: u64 },
}

/// The coordinator's pricing decision as it is stored for a transaction.
#[derive(Debug)]
pub struct QuoteAssignment {
    pub request_id: u64,
    pub resolver: PrincipalId,
    pub nav_tokens: u64,
    pub ckusdc_amount: u64,
    pub asset_amounts: Vec<AssetAmount>,
    pub estimated_nav: u64,
    pub fees: u64,
    pub valid_until: u64,
    pub assigned_at: u64,
}

/// A user's request for a price.
#[derive(Clone, Copy, Debug, PartialEq, Eq)]
pub struct QuoteRequest {
    pub request_id: u64,
    pub user: PrincipalId,
    pub bundle_id: u64,
    pub operation: OperationType,
    pub amount: u64,
    pub max_slippage: u8,
    pub expires_at: u64,
    pub created_at: u64,
}

/// The authoritative record of one settlement.
#[derive(Clone, Copy, Debug, PartialEq, Eq)]
pub struct Transaction {
    pub id: u64,
    pub request_id: u64,
    pub user: PrincipalId,
    pub resolver: PrincipalId,
    pub bundle_id: u64,
    pub operation: OperationType,
    pub status: TransactionStatus,
    pub nav_tokens: u64,
    pub ckusdc_amount: u64,
    pub created_at: u64,
    pub updated_at: u64,
    pub completed_at: Option<u64>,
    pub timeout_at: u64,
}

/// Funds of a user reserved against one settlement.
#[derive(Clone, Copy, Debug, PartialEq, Eq)]
pub struct LockedFunds {
    pub user: PrincipalId,
    pub transaction_id: u64,
    pub fund_type: LockedFundType,
    pub amount: u64,
    pub locked_at: u64,
    pub expires_at: u64,
}

/// A settlement as a listing shows it.
#[derive(Clone, Copy, Debug, PartialEq, Eq)]
pub struct TransactionSummary {
    pub id: u64,
    pub user: PrincipalId,
    pub bundle_id: u64,
    pub operation: OperationType,
    pub status: TransactionStatus,
    pub nav_tokens: u64,
    pub ckusdc_amount: u64,
    pub created_at: u64,
    pub duration_ms: Option<u64>,
}

/// Totals over all settlements.
#[derive(Clone, Copy, Debug, PartialEq, Eq, Structural)]
pub struct TransactionStats {
    pub total_transactions: u64,
    pub completed_transactions: u64,
    pub failed_transactions: u64,
    pub pending_transactions: u64,
    pub total_volume_ckusdc: u64,
    pub total_nav_tokens_minted: u64,
    pub total_nav_tokens_burned: u64,
    pub average_completion_time_ms: u64,
}

/// Totals over the settlements of one bundle.
#[derive(Clone, Copy, Debug, PartialEq, Eq, Structural)]
pub struct BundleTransactionHistory {
    pub bundle_id: u64,
    pub total_buy_transactions: u64,
    pub total_sell_transactions: u64,
    pub total_volume_bought: u64,
    pub total_volume_sold: u64,
    pub last_transaction_at: Option<u64>,
    pub active_transactions: u32,
}

/// Totals over the settlements of one user.
#[derive(Clone, Copy, Debug, PartialEq, Eq)]
pub struct UserTransactionSummary {
    pub user: PrincipalId,
    pub total_transactions: u64,
    pub buy_transactions: u64,
    pub sell_transactions: u64,
    pub total_volume_ckusdc: u64,
    pub current_locked_funds: u64,
    pub last_transaction_at: Option<u64>,
}

/// Counts of quote requests by state.
#[derive(Clone, Copy, Debug, PartialEq, Eq, Structural)]
pub struct QuoteStatistics {
    pub total_requests: u32,
    pub pending_requests: u32,
    pub assigned_requests: u32,
    pub expired_requests: u32,
    pub expired_assignments: u32,
}

/// A spending allowance as a ledger reports it.
#[derive(Clone, Copy, Debug, PartialEq, Eq, Structural)]
pub struct Allowance {
    pub allowance: u64,
    pub expires_at: Option<u64>,
}

impl TransactionStatus {
    /// Whether no further transition is allowed from this status.
    pub open spec fn is_terminal(self) -> bool {
        self == TransactionStatus::Completed || self == TransactionStatus::Failed || self
            == TransactionStatus::TimedOut
    }

    /// Whether no further transition is allowed from this status.
    pub fn terminal(&self) -> (r: bool)
        ensures
            r == self.is_terminal(),
    {
        match self {
            TransactionStatus::Completed | TransactionStatus::Failed | TransactionStatus::TimedOut => true,
            _ => false,
        }
    }
}

} // verus!
