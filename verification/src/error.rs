//! The failures that the engine reports.

use vstd::prelude::*;
use vstd::string::StringExecFns;
use crate::text::{decimal_chars, push_decimal};
use crate::types::AssetId;

verus! {

/// The classes of failure.
#[derive(Clone, Copy, Debug, PartialEq, Eq, Structural)]
pub enum ErrorKind {
    /// The caller may not do this.
    Authorization,
    /// The request is malformed or out of range.
    Validation,
    /// The coordinator key or a signature is missing or bad.
    Signature,
    /// A nonce was used before.
    Replay,
    /// A quote, an assignment or a lock is past its deadline.
    Expired,
    /// A balance or an allowance is too low.
    InsufficientFunds,
    /// The settlement is not in a status in which this can be done.
    State,
    /// A ledger call failed.
    ExternalCall,
    /// A number does not fit.
    Overflow,
}

/// One failure, with the values that its message names.
#[derive(Debug)]
pub enum Error {
    InvalidDecimals,
    ValueOverflow,
    ConversionOverflow,
    NormalizationOverflow,
    InvalidPrecision,
    EmptyAllocations,
    TooManyAllocations,
    TotalPercentage { got: u32 },
    ZeroPercentage,
    DuplicateAsset { asset_id: AssetId },
    PercentageTooHigh,
    AllocationOverflow,
    KeyNotConfigured,
    MalformedKey,
    InvalidKey,
    MalformedSignature,
    InvalidSignature,
    QuoteExpired { valid_until: u64, now: u64 },
    ReplayDetected,
    OddHexLength,
    InvalidHex { position: u64 },
    NotAdmin,
    FeeTooHigh,
    TransactionNotFound,
    TransactionNotFoundForRequest,
    NotPending,
    TransactionFinal,
    AlreadyLocked,
    InsufficientBalance { required: u64, available: u64 },
    InsufficientTokenBalance { bundle_id: u64, required: u64, available: u64 },
    NoLockFound,
    AssignmentNotFound,
    BundleNotFound { bundle_id: u64 },
    BundleInactive,
    NotAssignedResolver,
    NotBuyOperation,
    NotSellOperation,
    WrongStatus,
    AssetNotInBundle,
    InsufficientAllowance { available: u64, required: u64 },
    LedgerCallFailed { reason: String },
    FeeExceedsAmount,
    HoldingsOverflow,
    InsufficientHoldings,
    NoTokensIssued,
    RedeemExceedsSupply,
    MissingSettlementLock,
    MissingTokenLock,
    LockExpired,
    CounterOverflow,
    AssetNotFound { asset_id: AssetId },
    AssetExists { asset_id: AssetId },
    AssetInactive { asset_id: AssetId },
    NotMultiToken,
    BundleExists { bundle_id: u64 },
    ResolverNotFound,
    ResolverExists,
    ResolverFeeTooHigh,
    SlippageExceeded { received: u64, minimum: u64 },
    NoOracleTicker { asset_id: AssetId },
    QuoteRequestNotFound,
    InconsistentRecord,
}

impl Error {
    /// The class of this failure.
    pub open spec fn kind_of(self) -> ErrorKind {
        match self {
            Error::NotAdmin | Error::NotAssignedResolver => ErrorKind::Authorization,
            Error::InvalidDecimals
            | Error::InvalidPrecision
            | Error::EmptyAllocations
            | Error::TooManyAllocations
            | Error::TotalPercentage { .. }
            | Error::ZeroPercentage
            | Error::DuplicateAsset { .. }
            | Error::PercentageTooHigh
            | Error::OddHexLength
            | Error::InvalidHex { .. }
            | Error::FeeTooHigh
            | Error::BundleNotFound { .. }
            | Error::BundleInactive
            | Error::AssetNotInBundle
            | Error::FeeExceedsAmount
            | Error::NoTokensIssued
            | Error::RedeemExceedsSupply
            | Error::AssetNotFound { .. }
            | Error::AssetExists { .. }
            | Error::AssetInactive { .. }
            | Error::NotMultiToken
            | Error::BundleExists { .. }
            | Error::ResolverNotFound
            | Error::ResolverExists
            | Error::ResolverFeeTooHigh
            | Error::SlippageExceeded { .. }
            | Error::NoOracleTicker { .. } => ErrorKind::Validation,
            Error::KeyNotConfigured
            | Error::MalformedKey
            | Error::InvalidKey
            | Error::MalformedSignature
            | Error::InvalidSignature => ErrorKind::Signature,
            Error::ReplayDetected => ErrorKind::Replay,
            Error::QuoteExpired { .. } | Error::LockExpired => ErrorKind::Expired,
            Error::InsufficientBalance { .. }
            | Error::InsufficientTokenBalance { .. }
            | Error::InsufficientAllowance { .. }
            | Error::InsufficientHoldings => ErrorKind::InsufficientFunds,
            Error::TransactionNotFound
            | Error::TransactionNotFoundForRequest
            | Error::NotPending
            | Error::TransactionFinal
            | Error::AlreadyLocked
            | Error::NoLockFound
            | Error::AssignmentNotFound
            | Error::NotBuyOperation
            | Error::NotSellOperation
            | Error::WrongStatus
            | Error::MissingSettlementLock
            | Error::MissingTokenLock
            | Error::QuoteRequestNotFound
            | Error::InconsistentRecord => ErrorKind::State,
            Error::LedgerCallFailed { .. } => ErrorKind::ExternalCall,
            Error::ValueOverflow
            | Error::ConversionOverflow
            | Error::NormalizationOverflow
            | Error::AllocationOverflow
            | Error::HoldingsOverflow
            | Error::CounterOverflow => ErrorKind::Overflow,
        }
    }

    /// The class of this failure.
    pub fn kind(&self) -> (k: ErrorKind)
        ensures
            k == self.kind_of(),
    {
        match self {
            Error::NotAdmin | Error::NotAssignedResolver => ErrorKind::Authorization,
            Error::InvalidDecimals
            | Error::InvalidPrecision
            | Error::EmptyAllocations
            | Error::TooManyAllocations
            | Error::TotalPercentage { .. }
            | Error::ZeroPercentage
            | Error::DuplicateAsset { .. }
            | Error::PercentageTooHigh
            | Error::OddHexLength
            | Error::InvalidHex { .. }
            | Error::FeeTooHigh
            | Error::BundleNotFound { .. }
            | Error::BundleInactive
            | Error::AssetNotInBundle
            | Error::FeeExceedsAmount
            | Error::NoTokensIssued
            | Error::RedeemExceedsSupply
            | Error::AssetNotFound { .. }
            | Error::AssetExists { .. }
            | Error::AssetInactive { .. }
            | Error::NotMultiToken
            | Error::BundleExists { .. }
            | Error::ResolverNotFound
            | Error::ResolverExists
            | Error::ResolverFeeTooHigh
            | Error::SlippageExceeded { .. }
            | Error::NoOracleTicker { .. } => ErrorKind::Validation,
            Error::KeyNotConfigured
            | Error::MalformedKey
            | Error::InvalidKey
            | Error::MalformedSignature
            | Error::InvalidSignature => ErrorKind::Signature,
            Error::ReplayDetected => ErrorKind::Replay,
            Error::QuoteExpired { .. } | Error::LockExpired => ErrorKind::Expired,
            Error::InsufficientBalance { .. }
            | Error::InsufficientTokenBalance { .. }
            | Error::InsufficientAllowance { .. }
            | Error::InsufficientHoldings => ErrorKind::InsufficientFunds,
            Error::TransactionNotFound
            | Error::TransactionNotFoundForRequest
            | Error::NotPending
            | Error::TransactionFinal
            | Error::AlreadyLocked
            | Error::NoLockFound
            | Error::AssignmentNotFound
            | Error::NotBuyOperation
            | Error::NotSellOperation
            | Error::WrongStatus
            | Error::MissingSettlementLock
            | Error::MissingTokenLock
            | Error::QuoteRequestNotFound
            | Error::InconsistentRecord => ErrorKind::State,
            Error::LedgerCallFailed { .. } => ErrorKind::ExternalCall,
            Error::ValueOverflow
            | Error::ConversionOverflow
            | Error::NormalizationOverflow
            | Error::AllocationOverflow
            | Error::HoldingsOverflow
            | Error::CounterOverflow => ErrorKind::Overflow,
        }
    }

    /// The fixed part of the message, before any value it names.
    pub open spec fn message_head(self) -> Seq<char> {
        match self {
            Error::InvalidDecimals => "Asset decimals cannot exceed 18"@,
            Error::ValueOverflow => "Value overflow"@,
            Error::ConversionOverflow => "Amount overflow during decimal conversion"@,
            Error::NormalizationOverflow => "USD normalization overflow"@,
            Error::InvalidPrecision => "Precision decimals cannot exceed 18"@,
            Error::EmptyAllocations => "Bundle must have at least one allocation"@,
            Error::TooManyAllocations => "Bundle cannot have more than 20 allocations"@,
            Error::TotalPercentage { .. } => "Total allocation percentage must equal 100%, got "@,
            Error::ZeroPercentage => "Allocation percentage cannot be zero"@,
            Error::DuplicateAsset { .. } => "Duplicate asset in allocations: "@,
            Error::PercentageTooHigh => "Allocation percentage cannot exceed 100%"@,
            Error::AllocationOverflow => "Allocation value calculation overflow"@,
            Error::KeyNotConfigured => "Coordinator public key not configured"@,
            Error::MalformedKey => "Ed25519 public key must be 32 bytes"@,
            Error::InvalidKey => "Invalid Ed25519 public key format"@,
            Error::MalformedSignature => "Ed25519 signature must be 64 bytes"@,
            Error::InvalidSignature => "Ed25519 signature verification failed - quote has been tampered with"@,
            Error::QuoteExpired { .. } => "Quote expired at "@,
            Error::ReplayDetected => "Nonce already used (replay attack prevented)"@,
            Error::OddHexLength => "Hex string must have even length"@,
            Error::InvalidHex { .. } => "Invalid hex at position "@,
            Error::NotAdmin => "Admin access required"@,
            Error::FeeTooHigh => "Fee cannot exceed 100% (10000 bps)"@,
            Error::TransactionNotFound => "Transaction not found"@,
            Error::TransactionNotFoundForRequest => "Transaction not found for request"@,
            Error::NotPending => "Transaction not in pending state"@,
            Error::TransactionFinal => "Transaction already finalized"@,
            Error::AlreadyLocked => "Funds already locked for this transaction"@,
            Error::InsufficientBalance { .. } => "Insufficient ckUSDC balance: "@,
            Error::InsufficientTokenBalance { .. } => "Insufficient NAV token balance for bundle "@,
            Error::NoLockFound => "No locked funds found"@,
            Error::AssignmentNotFound => "Assignment not found"@,
            Error::BundleNotFound { .. } => "Bundle "@,
            Error::BundleInactive => "Bundle is not active"@,
            Error::NotAssignedResolver => "Only assigned resolver can perform this action"@,
            Error::NotBuyOperation => "This function is only for buy operations"@,
            Error::NotSellOperation => "This function is only for sell operations"@,
            Error::WrongStatus => "Transaction not in valid state for resolver action"@,
            Error::AssetNotInBundle => "Asset not found in bundle allocations"@,
            Error::InsufficientAllowance { .. } => "Insufficient allowance: resolver has "@,
            Error::LedgerCallFailed { .. } => "Call failed: "@,
            Error::FeeExceedsAmount => "Fee exceeds settlement amount"@,
            Error::HoldingsOverflow => "Holdings overflow"@,
            Error::InsufficientHoldings => "Insufficient holdings for withdrawal"@,
            Error::NoTokensIssued => "No NAV tokens exist for this bundle"@,
            Error::RedeemExceedsSupply => "Cannot redeem more NAV tokens than exist"@,
            Error::MissingSettlementLock => "Missing ckUSDC lock"@,
            Error::MissingTokenLock => "Missing NAV token lock"@,
            Error::LockExpired => "Lock expired but transaction not finalized"@,
            Error::CounterOverflow => "Identifier counter overflow"@,
            Error::AssetNotFound { .. } => "Asset not found: "@,
            Error::AssetExists { .. } => "Asset already exists: "@,
            Error::AssetInactive { .. } => "Asset is not active: "@,
            Error::NotMultiToken => "Asset is not held on an ICRC-151 ledger"@,
            Error::BundleExists { .. } => "Bundle already exists: "@,
            Error::ResolverNotFound => "Resolver not found"@,
            Error::ResolverExists => "Resolver already registered"@,
            Error::ResolverFeeTooHigh => "Fee rate too high (max 10%)"@,
            Error::SlippageExceeded { .. } => "Received ckUSDC "@,
            Error::NoOracleTicker { .. } => "No oracle ticker configured for asset "@,
            Error::QuoteRequestNotFound => "Quote request not found"@,
            Error::InconsistentRecord => "Record does not fit the stored state"@,
        }
    }

    /// The part of the message that names the failure's values.
    pub open spec fn message_tail(self) -> Seq<char> {
        match self {
            Error::TotalPercentage { got } => decimal_chars(got as nat) + "%"@,
            Error::DuplicateAsset { asset_id } => asset_id@,
            Error::QuoteExpired { valid_until, now } => decimal_chars(valid_until as nat)
                + ", current time is "@ + decimal_chars(now as nat),
            Error::InvalidHex { position } => decimal_chars(position as nat),
            Error::InsufficientBalance { required, available } => decimal_chars(required as nat)
                + " required, "@ + decimal_chars(available as nat) + " available"@,
            Error::InsufficientTokenBalance { bundle_id, required, available } => decimal_chars(
                bundle_id as nat,
            ) + ": "@ + decimal_chars(required as nat) + " required, "@ + decimal_chars(
                available as nat,
            ) + " available"@,
            Error::BundleNotFound { bundle_id } => decimal_chars(bundle_id as nat) + " not found"@,
            Error::InsufficientAllowance { available, required } => decimal_chars(available as nat)
                + " but needs "@ + decimal_chars(required as nat),
            Error::LedgerCallFailed { reason } => reason@,
            Error::AssetNotFound { asset_id } => asset_id@,
            Error::AssetExists { asset_id } => asset_id@,
            Error::AssetInactive { asset_id } => asset_id@,
            Error::NoOracleTicker { asset_id } => asset_id@,
            Error::BundleExists { bundle_id } => decimal_chars(bundle_id as nat),
            Error::SlippageExceeded { received, minimum } => decimal_chars(received as nat)
                + " is below minimum acceptable "@ + decimal_chars(minimum as nat),
            _ => Seq::<char>::empty(),
        }
    }

    /// The message of this failure.
    pub open spec fn message_text(self) -> Seq<char> {
        self.message_head() + self.message_tail()
    }

    fn head(&self) -> (s: String)
        ensures
            s@ == self.message_head(),
    {
        let text: &str = match self {
            Error::InvalidDecimals => "Asset decimals cannot exceed 18",
            Error::ValueOverflow => "Value overflow",
            Error::ConversionOverflow => "Amount overflow during decimal conversion",
            Error::NormalizationOverflow => "USD normalization overflow",
            Error::InvalidPrecision => "Precision decimals cannot exceed 18",
            Error::EmptyAllocations => "Bundle must have at least one allocation",
            Error::TooManyAllocations => "Bundle cannot have more than 20 allocations",
            Error::TotalPercentage { .. } => "Total allocation percentage must equal 100%, got ",
            Error::ZeroPercentage => "Allocation percentage cannot be zero",
            Error::DuplicateAsset { .. } => "Duplicate asset in allocations: ",
            Error::PercentageTooHigh => "Allocation percentage cannot exceed 100%",
            Error::AllocationOverflow => "Allocation value calculation overflow",
            Error::KeyNotConfigured => "Coordinator public key not configured",
            Error::MalformedKey => "Ed25519 public key must be 32 bytes",
            Error::InvalidKey => "Invalid Ed25519 public key format",
            Error::MalformedSignature => "Ed25519 signature must be 64 bytes",
            Error::InvalidSignature => "Ed25519 signature verification failed - quote has been tampered with",
            Error::QuoteExpired { .. } => "Quote expired at ",
            Error::ReplayDetected => "Nonce already used (replay attack prevented)",
            Error::OddHexLength => "Hex string must have even length",
            Error::InvalidHex { .. } => "Invalid hex at position ",
            Error::NotAdmin => "Admin access required",
            Error::FeeTooHigh => "Fee cannot exceed 100% (10000 bps)",
            Error::TransactionNotFound => "Transaction not found",
            Error::TransactionNotFoundForRequest => "Transaction not found for request",
            Error::NotPending => "Transaction not in pending state",
            Error::TransactionFinal => "Transaction already finalized",
            Error::AlreadyLocked => "Funds already locked for this transaction",
            Error::InsufficientBalance { .. } => "Insufficient ckUSDC balance: ",
            Error::InsufficientTokenBalance { .. } => "Insufficient NAV token balance for bundle ",
            Error::NoLockFound => "No locked funds found",
            Error::AssignmentNotFound => "Assignment not found",
            Error::BundleNotFound { .. } => "Bundle ",
            Error::BundleInactive => "Bundle is not active",
            Error::NotAssignedResolver => "Only assigned resolver can perform this action",
            Error::NotBuyOperation => "This function is only for buy operations",
            Error::NotSellOperation => "This function is only for sell operations",
            Error::WrongStatus => "Transaction not in valid state for resolver action",
            Error::AssetNotInBundle => "Asset not found in bundle allocations",
            Error::InsufficientAllowance { .. } => "Insufficient allowance: resolver has ",
            Error::LedgerCallFailed { .. } => "Call failed: ",
            Error::FeeExceedsAmount => "Fee exceeds settlement amount",
            Error::HoldingsOverflow => "Holdings overflow",
            Error::InsufficientHoldings => "Insufficient holdings for withdrawal",
            Error::NoTokensIssued => "No NAV tokens exist for this bundle",
            Error::RedeemExceedsSupply => "Cannot redeem more NAV tokens than exist",
            Error::MissingSettlementLock => "Missing ckUSDC lock",
            Error::MissingTokenLock => "Missing NAV token lock",
            Error::LockExpired => "Lock expired but transaction not finalized",
            Error::CounterOverflow => "Identifier counter overflow",
            Error::AssetNotFound { .. } => "Asset not found: ",
            Error::AssetExists { .. } => "Asset already exists: ",
            Error::AssetInactive { .. } => "Asset is not active: ",
            Error::NotMultiToken => "Asset is not held on an ICRC-151 ledger",
            Error::BundleExists { .. } => "Bundle already exists: ",
            Error::ResolverNotFound => "Resolver not found",
            Error::ResolverExists => "Resolver already registered",
            Error::ResolverFeeTooHigh => "Fee rate too high (max 10%)",
            Error::SlippageExceeded { .. } => "Received ckUSDC ",
            Error::NoOracleTicker { .. } => "No oracle ticker configured for asset ",
            Error::QuoteRequestNotFound => "Quote request not found",
            Error::InconsistentRecord => "Record does not fit the stored state",
        };
        String::from_str(text)
    }

    /// The message of this failure, as a person reads it.
    pub fn message(&self) -> (s: String)
        ensures
            s@ == self.message_text(),
    {
        let mut s = self.head();
        match self {
            Error::TotalPercentage { got } => {
                push_decimal(&mut s, *got as u64);
                s.append("%");
            },
            Error::DuplicateAsset { asset_id } => {
                s.append(asset_id.0.as_str());
            },
            Error::QuoteExpired { valid_until, now } => {
                push_decimal(&mut s, *valid_until);
                s.append(", current time is ");
                push_decimal(&mut s, *now);
            },
            Error::InvalidHex { position } => {
                push_decimal(&mut s, *position);
            },
            Error::InsufficientBalance { required, available } => {
                push_decimal(&mut s, *required);
                s.append(" required, ");
                push_decimal(&mut s, *available);
                s.append(" available");
            },
            Error::InsufficientTokenBalance { bundle_id, required, available } => {
                push_decimal(&mut s, *bundle_id);
                s.append(": ");
                push_decimal(&mut s, *required);
                s.append(" required, ");
                push_decimal(&mut s, *available);
                s.append(" available");
            },
            Error::BundleNotFound { bundle_id } => {
                push_decimal(&mut s, *bundle_id);
                s.append(" not found");
            },
            Error::InsufficientAllowance { available, required } => {
                push_decimal(&mut s, *available);
                s.append(" but needs ");
                push_decimal(&mut s, *required);
            },
            Error::LedgerCallFailed { reason } => {
                s.append(reason.as_str());
            },
            Error::AssetNotFound { asset_id } => {
                s.append(asset_id.0.as_str());
            },
            Error::AssetExists { asset_id } => {
                s.append(asset_id.0.as_str());
            },
            Error::AssetInactive { asset_id } => {
                s.append(asset_id.0.as_str());
            },
            Error::NoOracleTicker { asset_id } => {
                s.append(asset_id.0.as_str());
            },
            Error::BundleExists { bundle_id } => {
                push_decimal(&mut s, *bundle_id);
            },
            Error::SlippageExceeded { received, minimum } => {
                push_decimal(&mut s, *received);
                s.append(" is below minimum acceptable ");
                push_decimal(&mut s, *minimum);
            },
            _ => {},
        }
        assert(s@ =~= self.message_text());
        s
    }
}

} // verus!
