//! Quote authorization: the coordinator's key, the canonical bytes of a
//! quote, the check of its signature and freshness, and the set of nonces
//! that were used.
//!
//! The canonical bytes of a quote are its fields, without the signature,
//! joined by `|` in this order: bundle id, operation, resolver, bundle
//! tokens, settlement amount, asset amounts, fees, end of validity, nonce.
//! Numbers are decimal, the resolver is in its textual form, and the
//! operation and the asset amounts are compact JSON.

use vstd::prelude::*;
use ed25519_dalek::Verifier;
use ic_stable_structures::{StableBTreeMap, VectorMemory};
use crate::admin::{admin_is, is_admin};
use crate::bundle_manager::{bundle_of, compute_platform_fee, fee_bps_of, has_bundle, platform_fee, BundleStore};
use crate::error::Error;
use crate::ledger::{memo, plain_memo, reply_value, LedgerCall, LedgerRequest};
use crate::transaction_manager::{
    lock_result,
    new_lock,
    new_transaction,
    transaction_of,
    with_transition,
    TransactionManager,
};
use crate::memory::GlobalState;
use crate::principal::{principal_text, PrincipalId};
use crate::text::{decimal_bytes, push_decimal_bytes, push_text, utf8};
use crate::types::{AssetAmount, LockedFundType, OperationType, QuoteAssignment, TransactionStatus};

verus! {

/// The length of an Ed25519 public key in bytes.
pub const PUBLIC_KEY_BYTES: usize = 32;

/// The length of an Ed25519 signature in bytes.
pub const SIGNATURE_BYTES: usize = 64;

/// What the user asked for.
#[derive(Clone, Copy, Debug, PartialEq, Eq, Structural)]
pub enum QuoteOperation {
    /// The first purchase of a bundle, priced in USD.
    InitialBuy { usd_amount: u64, nav_tokens: u64 },
    /// A purchase for an amount of settlement currency.
    Buy { ckusdc_amount: u64 },
    /// A redemption of bundle tokens.
    Sell { nav_tokens: u64 },
}

impl QuoteOperation {
    /// Whether the operation mints bundle tokens or redeems them.
    pub open spec fn kind_of(self) -> OperationType {
        match self {
            QuoteOperation::Sell { .. } => OperationType::Sell,
            _ => OperationType::Buy,
        }
    }

    /// Whether the operation mints bundle tokens or redeems them.
    pub fn kind(&self) -> (k: OperationType)
        ensures
            k == self.kind_of(),
    {
        match self {
            QuoteOperation::Sell { .. } => OperationType::Sell,
            _ => OperationType::Buy,
        }
    }
}

/// The coordinator's signed pricing decision.
#[derive(Debug)]
pub struct QuoteObject {
    pub bundle_id: u64,
    pub operation: QuoteOperation,
    pub resolver: PrincipalId,
    pub nav_tokens: u64,
    pub ckusdc_amount: u64,
    pub asset_amounts: Vec<AssetAmount>,
    pub fees: u64,
    pub valid_until: u64,
    pub nonce: u64,
    pub coordinator_signature: Vec<u8>,
}

/// The operation as compact JSON.
pub open spec fn operation_json(operation: QuoteOperation) -> Seq<u8> {
    match operation {
        QuoteOperation::InitialBuy { usd_amount, nav_tokens } => utf8("{\"InitialBuy\":{\"usd_amount\":"@)
            + decimal_bytes(usd_amount as nat) + utf8(",\"nav_tokens\":"@) + decimal_bytes(nav_tokens as nat)
            + utf8("}}"@),
        QuoteOperation::Buy { ckusdc_amount } => utf8("{\"Buy\":{\"ckusdc_amount\":"@) + decimal_bytes(
            ckusdc_amount as nat,
        ) + utf8("}}"@),
        QuoteOperation::Sell { nav_tokens } => utf8("{\"Sell\":{\"nav_tokens\":"@) + decimal_bytes(
            nav_tokens as nat,
        ) + utf8("}}"@),
    }
}

/// One asset amount as compact JSON.
pub open spec fn asset_amount_json(item: AssetAmount) -> Seq<u8> {
    utf8("{\"asset_id\":\""@) + utf8(item.asset_id@) + utf8("\",\"amount\":"@) + decimal_bytes(item.amount as nat)
        + utf8("}"@)
}

/// The asset amounts as JSON objects with commas between them.
pub open spec fn asset_amounts_joined(items: Seq<AssetAmount>) -> Seq<u8>
    decreases items.len(),
{
    if items.len() == 0 {
        Seq::<u8>::empty()
    } else if items.len() == 1 {
        asset_amount_json(items[0])
    } else {
        asset_amounts_joined(items.drop_last()) + utf8(","@) + asset_amount_json(items.last())
    }
}

/// The bytes that the coordinator signs.
pub open spec fn canonical_bytes(quote: QuoteObject) -> Seq<u8> {
    decimal_bytes(quote.bundle_id as nat) + utf8("|"@) + operation_json(quote.operation) + utf8("|"@) + utf8(
        principal_text(quote.resolver@),
    ) + utf8("|"@) + decimal_bytes(quote.nav_tokens as nat) + utf8("|"@) + decimal_bytes(
        quote.ckusdc_amount as nat,
    ) + utf8("|"@) + utf8("["@) + asset_amounts_joined(quote.asset_amounts@) + utf8("]"@) + utf8("|"@)
        + decimal_bytes(quote.fees as nat) + utf8("|"@) + decimal_bytes(quote.valid_until as nat) + utf8("|"@)
        + decimal_bytes(quote.nonce as nat)
}

fn push_operation(out: &mut Vec<u8>, operation: &QuoteOperation)
    ensures
        final(out)@ == old(out)@ + operation_json(*operation),
{
    match operation {
        QuoteOperation::InitialBuy { usd_amount, nav_tokens } => {
            push_text(out, "{\"InitialBuy\":{\"usd_amount\":");
            push_decimal_bytes(out, *usd_amount);
            push_text(out, ",\"nav_tokens\":");
            push_decimal_bytes(out, *nav_tokens);
            push_text(out, "}}");
        },
        QuoteOperation::Buy { ckusdc_amount } => {
            push_text(out, "{\"Buy\":{\"ckusdc_amount\":");
            push_decimal_bytes(out, *ckusdc_amount);
            push_text(out, "}}");
        },
        QuoteOperation::Sell { nav_tokens } => {
            push_text(out, "{\"Sell\":{\"nav_tokens\":");
            push_decimal_bytes(out, *nav_tokens);
            push_text(out, "}}");
        },
    }
    assert(out@ =~= old(out)@ + operation_json(*operation));
}

fn push_asset_amount(out: &mut Vec<u8>, item: &AssetAmount)
    ensures
        final(out)@ == old(out)@ + asset_amount_json(*item),
{
    push_text(out, "{\"asset_id\":\"");
    push_text(out, item.asset_id.0.as_str());
    push_text(out, "\",\"amount\":");
    push_decimal_bytes(out, item.amount);
    push_text(out, "}");
    assert(out@ =~= old(out)@ + asset_amount_json(*item));
}

fn push_asset_amounts(out: &mut Vec<u8>, items: &Vec<AssetAmount>)
    ensures
        final(out)@ == old(out)@ + asset_amounts_joined(items@),
{
    let mut i: usize = 0;
    assert(items@.take(0).len() == 0);
    assert(out@ =~= old(out)@ + asset_amounts_joined(items@.take(0)));
    while i < items.len()
        invariant
            i <= items.len(),
            out@ == old(out)@ + asset_amounts_joined(items@.take(i as int)),
        decreases items.len() - i,
    {
        let ghost before = out@;
        if i > 0 {
            push_text(out, ",");
        }
        push_asset_amount(out, &items[i]);
        proof {
            let next = items@.take(i + 1);
            assert(next.drop_last() =~= items@.take(i as int));
            assert(next.last() == items@[i as int]);
            if i == 0 {
                assert(next[0] == items@[0]);
                assert(asset_amounts_joined(items@.take(0)) =~= Seq::<u8>::empty());
            }
            assert(out@ =~= old(out)@ + asset_amounts_joined(next));
        }
        i += 1;
    }
    assert(items@.take(i as int) =~= items@);
}

/// The bytes that the coordinator signs: every field of the quote but the
/// signature.
pub fn serialize_quote_for_signing(quote: &QuoteObject) -> (out: Vec<u8>)
    ensures
        out@ == canonical_bytes(*quote),
{
    let mut out: Vec<u8> = Vec::new();
    push_decimal_bytes(&mut out, quote.bundle_id);
    push_text(&mut out, "|");
    push_operation(&mut out, &quote.operation);
    push_text(&mut out, "|");
    let resolver = quote.resolver.to_text();
    push_text(&mut out, resolver.as_str());
    push_text(&mut out, "|");
    push_decimal_bytes(&mut out, quote.nav_tokens);
    push_text(&mut out, "|");
    push_decimal_bytes(&mut out, quote.ckusdc_amount);
    push_text(&mut out, "|");
    push_text(&mut out, "[");
    push_asset_amounts(&mut out, &quote.asset_amounts);
    push_text(&mut out, "]");
    push_text(&mut out, "|");
    push_decimal_bytes(&mut out, quote.fees);
    push_text(&mut out, "|");
    push_decimal_bytes(&mut out, quote.valid_until);
    push_text(&mut out, "|");
    push_decimal_bytes(&mut out, quote.nonce);
    assert(out@ =~= canonical_bytes(*quote));
    out
}

/// Whether the 32 bytes are the encoding of a point on the curve, so that
/// they can serve as an Ed25519 public key.
pub uninterp spec fn ed25519_key_decodes(key: Seq<u8>) -> bool;

/// Whether Ed25519 verification of `signature` over `message` succeeds
/// under the public key `key`.
pub uninterp spec fn ed25519_accepts(key: Seq<u8>, message: Seq<u8>, signature: Seq<u8>) -> bool;

/// `ed25519_dalek::VerifyingKey::from_bytes`: whether the 32 bytes
/// decompress to a curve point. The conversion to an array panics on any
/// other length.
#[verifier::external_body]
fn verifying_key_decodes(key: &[u8]) -> (r: bool)
    requires
        key@.len() == 32,
    ensures
        r == ed25519_key_decodes(key@),
{
    let bytes: [u8; 32] = key.try_into().unwrap();
    ed25519_dalek::VerifyingKey::from_bytes(&bytes).is_ok()
}

/// `VerifyingKey::verify` of `ed25519_dalek`, on the key decoded from `key`
/// and the signature made of the 64 bytes: whether verification succeeds.
/// The key must decode, and the lengths must be 32 and 64: the body panics
/// otherwise.
#[verifier::external_body]
fn signature_verifies(key: &[u8], message: &[u8], signature: &[u8]) -> (r: bool)
    requires
        key@.len() == 32,
        signature@.len() == 64,
        ed25519_key_decodes(key@),
    ensures
        r == ed25519_accepts(key@, message@, signature@),
{
    let key_bytes: [u8; 32] = key.try_into().unwrap();
    let signature_bytes: [u8; 64] = signature.try_into().unwrap();
    let verifying_key = ed25519_dalek::VerifyingKey::from_bytes(&key_bytes).unwrap();
    verifying_key.verify(message, &ed25519_dalek::Signature::from_bytes(&signature_bytes)).is_ok()
}

/// The verdict on a signature, from the lengths of key and signature and
/// from what the Ed25519 checks said: a key must be configured, have 32
/// bytes and decode; the signature must have 64 bytes and verify. The first
/// of these that fails names the error.
pub open spec fn signature_verdict(
    key_len: Option<nat>,
    signature_len: nat,
    key_decodes: bool,
    accepted: bool,
) -> Result<(), Error> {
    match key_len {
        None => Err(Error::KeyNotConfigured),
        Some(n) => if n != PUBLIC_KEY_BYTES {
            Err(Error::MalformedKey)
        } else if !key_decodes {
            Err(Error::InvalidKey)
        } else if signature_len != SIGNATURE_BYTES {
            Err(Error::MalformedSignature)
        } else if !accepted {
            Err(Error::InvalidSignature)
        } else {
            Ok(())
        },
    }
}

/// The verdict on a signature, from the lengths of key and signature and
/// from what the Ed25519 checks said.
pub fn decide_signature(key_len: Option<usize>, signature_len: usize, key_decodes: bool, accepted: bool) -> (r:
    Result<(), Error>)
    ensures
        r == signature_verdict(
            match key_len {
                Some(n) => Some(n as nat),
                None => None,
            },
            signature_len as nat,
            key_decodes,
            accepted,
        ),
{
    match key_len {
        None => Err(Error::KeyNotConfigured),
        Some(n) => if n != PUBLIC_KEY_BYTES {
            Err(Error::MalformedKey)
        } else if !key_decodes {
            Err(Error::InvalidKey)
        } else if signature_len != SIGNATURE_BYTES {
            Err(Error::MalformedSignature)
        } else if !accepted {
            Err(Error::InvalidSignature)
        } else {
            Ok(())
        },
    }
}

/// What `validate_coordinator_signature` returns for a quote under a
/// configured key.
pub open spec fn signature_check(key: Option<Vec<u8>>, quote: QuoteObject) -> Result<(), Error> {
    match key {
        None => signature_verdict(None, quote.coordinator_signature@.len(), false, false),
        Some(k) => signature_verdict(
            Some(k@.len()),
            quote.coordinator_signature@.len(),
            ed25519_key_decodes(k@),
            ed25519_accepts(k@, canonical_bytes(quote), quote.coordinator_signature@),
        ),
    }
}

/// Checks the coordinator's signature over the canonical bytes of the
/// quote.
pub fn validate_coordinator_signature(state: &GlobalState, quote: &QuoteObject) -> (r: Result<(), Error>)
    ensures
        r == signature_check(state.coordinator_public_key, *quote),
{
    let signature_len = quote.coordinator_signature.len();
    match &state.coordinator_public_key {
        None => decide_signature(None, signature_len, false, false),
        Some(key) => {
            if key.len() != PUBLIC_KEY_BYTES {
                return decide_signature(Some(key.len()), signature_len, false, false);
            }
            let key_decodes = verifying_key_decodes(key.as_slice());
            if !key_decodes || signature_len != SIGNATURE_BYTES {
                return decide_signature(Some(key.len()), signature_len, key_decodes, false);
            }
            let message = serialize_quote_for_signing(quote);
            let accepted = signature_verifies(
                key.as_slice(),
                message.as_slice(),
                quote.coordinator_signature.as_slice(),
            );
            decide_signature(Some(key.len()), signature_len, key_decodes, accepted)
        },
    }
}

/// The value of a hexadecimal digit, of either case.
pub open spec fn hex_value(b: u8) -> Option<u8> {
    if 48 <= b <= 57 {
        Some((b - 48) as u8)
    } else if 97 <= b <= 102 {
        Some((b - 87) as u8)
    } else if 65 <= b <= 70 {
        Some((b - 55) as u8)
    } else {
        None
    }
}

/// The text without any `0x` at its start.
pub open spec fn without_hex_prefix(text: Seq<u8>) -> Seq<u8>
    decreases text.len(),
{
    if text.len() >= 2 && text[0] == 48 && text[1] == 120 {
        without_hex_prefix(text.skip(2))
    } else {
        text
    }
}

/// Whether the two characters from `position` on are hexadecimal digits.
pub open spec fn is_hex_pair(digits: Seq<u8>, position: int) -> bool {
    hex_value(digits[position]) is Some && hex_value(digits[position + 1]) is Some
}

/// The first even position at or after `from` where two characters that
/// are not both hexadecimal digits start.
pub open spec fn first_bad_pair(digits: Seq<u8>, from: int) -> Option<int>
    decreases digits.len() - from,
{
    if from < 0 || from + 1 >= digits.len() {
        None
    } else if !is_hex_pair(digits, from) {
        Some(from)
    } else {
        first_bad_pair(digits, from + 2)
    }
}

/// The bytes that pairs of hexadecimal digits stand for.
pub open spec fn hex_pairs(digits: Seq<u8>) -> Seq<u8> {
    Seq::new(
        digits.len() / 2,
        |k: int| (hex_value(digits[2 * k]).unwrap() * 16 + hex_value(digits[2 * k + 1]).unwrap()) as u8,
    )
}

/// What `hex_to_bytes` returns for a text: after any `0x` at its start, the
/// text must have an even length and hold hexadecimal digits only.
pub open spec fn hex_decoded(text: Seq<u8>) -> Result<Seq<u8>, Error> {
    let digits = without_hex_prefix(text);
    if digits.len() % 2 != 0 {
        Err(Error::OddHexLength)
    } else {
        match first_bad_pair(digits, 0) {
            Some(position) => Err(Error::InvalidHex { position: position as u64 }),
            None => Ok(hex_pairs(digits)),
        }
    }
}

fn hex_digit(b: u8) -> (r: Option<u8>)
    ensures
        r == hex_value(b),
        r matches Some(v) ==> v < 16,
{
    if 48 <= b && b <= 57 {
        Some(b - 48)
    } else if 97 <= b && b <= 102 {
        Some(b - 87)
    } else if 65 <= b && b <= 70 {
        Some(b - 55)
    } else {
        None
    }
}

/// Decodes hexadecimal text, with or without `0x` in front, into bytes.
pub fn hex_to_bytes(hex: &str) -> (r: Result<Vec<u8>, Error>)
    ensures
        match r {
            Ok(bytes) => hex_decoded(utf8(hex@)) == Ok::<Seq<u8>, Error>(bytes@),
            Err(e) => hex_decoded(utf8(hex@)) == Err::<Seq<u8>, Error>(e),
        },
{
    let text = hex.as_bytes();
    let mut start: usize = 0;
    assert(text@.skip(0) =~= text@);
    while text.len() - start >= 2 && text[start] == 48u8 && text[start + 1] == 120u8
        invariant
            start <= text@.len(),
            without_hex_prefix(text@) == without_hex_prefix(text@.skip(start as int)),
        decreases text@.len() - start,
    {
        assert(text@.skip(start as int).skip(2) =~= text@.skip(start + 2));
        start += 2;
    }
    let ghost digits = text@.skip(start as int);
    assert(without_hex_prefix(text@) == digits);
    let len: usize = text.len();
    let n: usize = len - start;
    if n % 2 != 0 {
        return Err(Error::OddHexLength);
    }
    let mut out: Vec<u8> = Vec::new();
    let mut i: usize = 0;
    while i < n
        invariant
            i <= n,
            i % 2 == 0,
            n % 2 == 0,
            n == digits.len(),
            start + n == len,
            len == text@.len(),
            without_hex_prefix(utf8(hex@)) == digits,
            digits == text@.skip(start as int),
            first_bad_pair(digits, 0) == first_bad_pair(digits, i as int),
            out@.len() == i / 2,
            forall|k: int| 0 <= k < out@.len() ==> out@[k] == hex_pairs(digits)[k],
        decreases n - i,
    {
        assert(digits[i as int] == text@[start + i]);
        assert(digits[i + 1] == text@[start + i + 1]);
        let high = hex_digit(text[start + i]);
        let low = hex_digit(text[start + i + 1]);
        match (high, low) {
            (Some(h), Some(l)) => {
                out.push(h * 16 + l);
            },
            _ => {
                return Err(Error::InvalidHex { position: i as u64 });
            },
        }
        i += 2;
    }
    assert(out@ =~= hex_pairs(digits));
    Ok(out)
}

/// Sets the coordinator's public key from hexadecimal text. Only the
/// administrator may, and the key must have exactly 32 bytes.
pub fn set_coordinator_public_key(state: &mut GlobalState, caller: &PrincipalId, public_key_hex: &str) -> (r:
    Result<(), Error>)
    ensures
        r == key_update(*old(state), *caller, utf8(public_key_hex@)),
        match r {
            Ok(()) => final(state).coordinator_public_key matches Some(key) && hex_decoded(
                utf8(public_key_hex@),
            ) == Ok::<Seq<u8>, Error>(key@) && *final(state) == (GlobalState {
                coordinator_public_key: final(state).coordinator_public_key,
                ..*old(state)
            }),
            Err(_) => *final(state) == *old(state),
        },
{
    if !is_admin(state, caller) {
        return Err(Error::NotAdmin);
    }
    let key = match hex_to_bytes(public_key_hex) {
        Ok(key) => key,
        Err(e) => {
            return Err(e);
        },
    };
    if key.len() != PUBLIC_KEY_BYTES {
        return Err(Error::MalformedKey);
    }
    state.coordinator_public_key = Some(key);
    Ok(())
}

/// Whether a new coordinator key is accepted.
pub open spec fn key_update(state: GlobalState, caller: PrincipalId, text: Seq<u8>) -> Result<(), Error> {
    if !admin_is(state, caller) {
        Err(Error::NotAdmin)
    } else {
        match hex_decoded(text) {
            Err(e) => Err(e),
            Ok(key) => if key.len() != PUBLIC_KEY_BYTES {
                Err(Error::MalformedKey)
            } else {
                Ok(())
            },
        }
    }
}

/// The coordinator's public key.
pub fn get_coordinator_public_key(state: &GlobalState) -> (r: Result<Vec<u8>, Error>)
    ensures
        match r {
            Ok(key) => state.coordinator_public_key matches Some(k) && key@ == k@,
            Err(e) => state.coordinator_public_key is None && e == Error::KeyNotConfigured,
        },
{
    match &state.coordinator_public_key {
        Some(key) => Ok(key.clone()),
        None => Err(Error::KeyNotConfigured),
    }
}

/// The nonces that were used, each with the time of its use, in a B-tree
/// map of the stable-structures crate over a memory of its own.
#[verifier::external_body]
pub struct NonceMap {
    inner: StableBTreeMap<u64, u64, VectorMemory>,
}

/// The entries of the map: each used nonce with the time of its use.
pub uninterp spec fn nonce_entries(map: NonceMap) -> Map<u64, u64>;

/// The map without entries.
pub open spec fn no_entries() -> Map<u64, u64> {
    Map::empty()
}

/// `StableBTreeMap::new` on a fresh `VectorMemory`: a map without entries.
#[verifier::external_body]
fn nonce_map_new() -> (fresh: NonceMap)
    ensures
        nonce_entries(fresh) == no_entries(),
{
    NonceMap { inner: StableBTreeMap::new(VectorMemory::default()) }
}

/// `StableBTreeMap::contains_key`: whether the key has an entry.
#[verifier::external_body]
fn nonce_map_contains(map: &NonceMap, key: u64) -> (r: bool)
    ensures
        r == nonce_entries(*map).dom().contains(key),
{
    map.inner.contains_key(&key)
}

/// `StableBTreeMap::insert`: the key has the value afterwards, every other
/// entry stays, and the value that the key had before is returned.
#[verifier::external_body]
fn nonce_map_insert(map: &mut NonceMap, key: u64, value: u64) -> (previous: Option<u64>)
    ensures
        nonce_entries(*final(map)) == nonce_entries(*old(map)).insert(key, value),
        previous == if nonce_entries(*old(map)).dom().contains(key) {
            Some(nonce_entries(*old(map))[key])
        } else {
            None::<u64>
        },
{
    map.inner.insert(key, value)
}

/// `StableBTreeMap::iter`, collected: every entry once, by increasing key.
#[verifier::external_body]
fn nonce_map_pairs(map: &NonceMap) -> (pairs: Vec<(u64, u64)>)
    ensures
        forall|i: int|
            0 <= i < pairs@.len() ==> nonce_entries(*map).contains_pair((#[trigger] pairs@[i]).0, pairs@[i].1),
        forall|key: u64| #[trigger]
            nonce_entries(*map).dom().contains(key) ==> exists|i: int|
                0 <= i < pairs@.len() && (#[trigger] pairs@[i]).0 == key,
        forall|i: int, j: int| 0 <= i < j < pairs@.len() ==> (#[trigger] pairs@[i]).0 < (#[trigger] pairs@[j]).0,
{
    map.inner.iter().collect()
}

/// The set of used nonces.
pub struct UsedNonces {
    map: NonceMap,
}

impl UsedNonces {
    /// Each used nonce with the time of its use.
    pub closed spec fn view(&self) -> Map<u64, u64> {
        nonce_entries(self.map)
    }

    /// A set without nonces.
    pub fn new() -> (nonces: UsedNonces)
        ensures
            nonces@ == Map::<u64, u64>::empty(),
    {
        UsedNonces { map: nonce_map_new() }
    }

    /// Whether the nonce was used.
    pub fn is_used(&self, nonce: u64) -> (r: bool)
        ensures
            r == self@.dom().contains(nonce),
    {
        nonce_map_contains(&self.map, nonce)
    }

    /// Every used nonce with the time of its use, by increasing nonce.
    pub fn used_nonces(&self) -> (pairs: Vec<(u64, u64)>)
        ensures
            forall|i: int| 0 <= i < pairs@.len() ==> self@.contains_pair((#[trigger] pairs@[i]).0, pairs@[i].1),
            forall|key: u64| #[trigger]
                self@.dom().contains(key) ==> exists|i: int|
                    0 <= i < pairs@.len() && (#[trigger] pairs@[i]).0 == key,
            forall|i: int, j: int|
                0 <= i < j < pairs@.len() ==> (#[trigger] pairs@[i]).0 < (#[trigger] pairs@[j]).0,
    {
        nonce_map_pairs(&self.map)
    }
}

/// Marks a nonce as used at `timestamp`. Fails with `ReplayDetected`, and
/// changes nothing, where the nonce was used before; a nonce never leaves
/// the set.
pub fn consume_nonce(nonces: &mut UsedNonces, nonce: u64, timestamp: u64) -> (r: Result<(), Error>)
    ensures
        old(nonces)@.dom().contains(nonce) ==> r == Err::<(), Error>(Error::ReplayDetected) && final(nonces)@
            == old(nonces)@,
        !old(nonces)@.dom().contains(nonce) ==> r == Ok::<(), Error>(()) && final(nonces)@ == old(
            nonces,
        )@.insert(nonce, timestamp),
{
    if nonce_map_contains(&nonces.map, nonce) {
        return Err(Error::ReplayDetected);
    }
    let _ = nonce_map_insert(&mut nonces.map, nonce, timestamp);
    Ok(())
}

/// Whether an assignment for this id is among `items`.
pub open spec fn has_assignment(items: Seq<QuoteAssignment>, id: u64) -> bool {
    exists|i: int| 0 <= i < items.len() && (#[trigger] items[i]).request_id == id
}

/// The assignment for this id among `items`.
pub open spec fn assignment_of(items: Seq<QuoteAssignment>, id: u64) -> QuoteAssignment
    recommends
        has_assignment(items, id),
{
    items[choose|i: int| 0 <= i < items.len() && (#[trigger] items[i]).request_id == id]
}

/// No two assignments are for the same id.
pub open spec fn distinct_assignments(items: Seq<QuoteAssignment>) -> bool {
    forall|i: int, j: int|
        0 <= i < j < items.len() ==> (#[trigger] items[i]).request_id != (#[trigger] items[j]).request_id
}

/// With distinct ids, the assignment found for an id is the one at any
/// index that holds the id.
pub proof fn lemma_assignment_at(items: Seq<QuoteAssignment>, i: int)
    requires
        distinct_assignments(items),
        0 <= i < items.len(),
    ensures
        has_assignment(items, items[i].request_id),
        assignment_of(items, items[i].request_id) == items[i],
{
    let c = choose|k: int| 0 <= k < items.len() && (#[trigger] items[k]).request_id == items[i].request_id;
    if c < i {
        assert(items[c].request_id != items[i].request_id);
    } else if i < c {
        assert(items[i].request_id != items[c].request_id);
    }
}

/// Storing an assignment for `key`, by replacing or by appending, leaves
/// the lookup of every other id as it was.
pub proof fn lemma_other_assignment(before: Seq<QuoteAssignment>, after: Seq<QuoteAssignment>, key: u64, id: u64)
    requires
        distinct_assignments(before),
        distinct_assignments(after),
        id != key,
        before.len() <= after.len() <= before.len() + 1,
        forall|k: int| 0 <= k < before.len() && (#[trigger] before[k]).request_id != key ==> after[k] == before[k],
        forall|k: int| 0 <= k < after.len() && (#[trigger] after[k]).request_id != key ==> k < before.len()
            && after[k] == before[k],
    ensures
        has_assignment(after, id) == has_assignment(before, id),
        has_assignment(before, id) ==> assignment_of(after, id) == assignment_of(before, id),
{
    if has_assignment(before, id) {
        let k = choose|k: int| 0 <= k < before.len() && (#[trigger] before[k]).request_id == id;
        assert(after[k] == before[k]);
        lemma_assignment_at(after, k);
        lemma_assignment_at(before, k);
    }
    if has_assignment(after, id) {
        let k = choose|k: int| 0 <= k < after.len() && (#[trigger] after[k]).request_id == id;
        assert(after[k] == before[k]);
    }
}

/// The accepted quotes, by the id of the transaction each was accepted for.
pub struct AssignmentStore {
    items: Vec<QuoteAssignment>,
}

impl AssignmentStore {
    /// The assignments, in the order in which they were first stored.
    pub closed spec fn view(&self) -> Seq<QuoteAssignment> {
        self.items@
    }

    /// No two assignments are for the same id.
    pub open spec fn wf(&self) -> bool {
        distinct_assignments(self@)
    }

    /// A store without assignments.
    pub fn new() -> (r: AssignmentStore)
        ensures
            r.wf(),
            r@ == Seq::<QuoteAssignment>::empty(),
    {
        AssignmentStore { items: Vec::new() }
    }

    fn position(&self, id: u64) -> (r: Option<usize>)
        requires
            self.wf(),
        ensures
            r is Some <==> has_assignment(self@, id),
            r matches Some(i) ==> i < self@.len() && self@[i as int].request_id == id && self@[i as int]
                == assignment_of(self@, id),
    {
        let mut i: usize = 0;
        while i < self.items.len()
            invariant
                self.wf(),
                i <= self.items.len(),
                forall|k: int| 0 <= k < i ==> (#[trigger] self.items@[k]).request_id != id,
            decreases self.items.len() - i,
        {
            if self.items[i].request_id == id {
                proof {
                    lemma_assignment_at(self.items@, i as int);
                }
                return Some(i);
            }
            i += 1;
        }
        None
    }

    /// The assignment that was stored for this id.
    pub fn get_assignment(&self, assignment_id: u64) -> (r: Result<&QuoteAssignment, Error>)
        requires
            self.wf(),
        ensures
            match r {
                Ok(a) => has_assignment(self@, assignment_id) && *a == assignment_of(self@, assignment_id),
                Err(e) => !has_assignment(self@, assignment_id) && e == Error::AssignmentNotFound,
            },
    {
        match self.position(assignment_id) {
            Some(i) => Ok(&self.items[i]),
            None => Err(Error::AssignmentNotFound),
        }
    }

    /// Stores an assignment under its id, in place of any that was stored
    /// for the id before.
    pub fn store_assignment(&mut self, assignment: QuoteAssignment)
        requires
            old(self).wf(),
        ensures
            final(self).wf(),
            has_assignment(final(self)@, assignment.request_id),
            assignment_of(final(self)@, assignment.request_id) == assignment,
            forall|id: u64|
                id != assignment.request_id ==> (#[trigger] has_assignment(final(self)@, id)) == has_assignment(
                    old(self)@,
                    id,
                ),
            forall|id: u64|
                id != assignment.request_id && has_assignment(old(self)@, id) ==> #[trigger] assignment_of(
                    final(self)@,
                    id,
                ) == assignment_of(old(self)@, id),
    {
        let ghost before = self.items@;
        let ghost key = assignment.request_id;
        match self.position(assignment.request_id) {
            Some(i) => {
                self.items[i] = assignment;
                proof {
                    let after = self.items@;
                    assert forall|a: int, b: int| 0 <= a < b < after.len() implies (#[trigger] after[a]).request_id
                        != (#[trigger] after[b]).request_id by {
                        assert(after[a].request_id == before[a].request_id);
                        assert(after[b].request_id == before[b].request_id);
                    }
                    lemma_assignment_at(after, i as int);
                    assert forall|id: u64| id != key implies (#[trigger] has_assignment(after, id))
                        == has_assignment(before, id) by {
                        lemma_other_assignment(before, after, key, id);
                    }
                    assert forall|id: u64| id != key && has_assignment(before, id) implies #[trigger] assignment_of(
                        after,
                        id,
                    ) == assignment_of(before, id) by {
                        lemma_other_assignment(before, after, key, id);
                    }
                }
            },
            None => {
                self.items.push(assignment);
                proof {
                    let after = self.items@;
                    assert forall|a: int, b: int| 0 <= a < b < after.len() implies (#[trigger] after[a]).request_id
                        != (#[trigger] after[b]).request_id by {
                        if b == before.len() {
                            assert(after[a] == before[a]);
                        } else {
                            assert(after[a] == before[a] && after[b] == before[b]);
                        }
                    }
                    lemma_assignment_at(after, before.len() as int);
                    assert forall|id: u64| id != key implies (#[trigger] has_assignment(after, id))
                        == has_assignment(before, id) by {
                        lemma_other_assignment(before, after, key, id);
                    }
                    assert forall|id: u64| id != key && has_assignment(before, id) implies #[trigger] assignment_of(
                        after,
                        id,
                    ) == assignment_of(before, id) by {
                        lemma_other_assignment(before, after, key, id);
                    }
                }
            },
        }
    }
}

impl AssignmentStore {
    /// Sets the settlement amount of the assignment that is stored for an
    /// id.
    pub fn update_settlement_amount(&mut self, assignment_id: u64, ckusdc_amount: u64) -> (r: Result<(), Error>)
        requires
            old(self).wf(),
        ensures
            final(self).wf(),
            r == if has_assignment(old(self)@, assignment_id) {
                Ok::<(), Error>(())
            } else {
                Err::<(), Error>(Error::AssignmentNotFound)
            },
            r is Err ==> final(self)@ == old(self)@,
            r is Ok ==> final(self)@.len() == old(self)@.len() && forall|i: int|
                0 <= i < old(self)@.len() ==> #[trigger] final(self)@[i] == if old(self)@[i].request_id
                    == assignment_id {
                    QuoteAssignment { ckusdc_amount, ..old(self)@[i] }
                } else {
                    old(self)@[i]
                },
    {
        match self.position(assignment_id) {
            None => Err(Error::AssignmentNotFound),
            Some(i) => {
                let ghost before = self.items@;
                self.items[i].ckusdc_amount = ckusdc_amount;
                proof {
                    let after = self.items@;
                    assert forall|a: int, b: int| 0 <= a < b < after.len() implies (#[trigger] after[a]).request_id
                        != (#[trigger] after[b]).request_id by {
                        assert(after[a].request_id == before[a].request_id);
                        assert(after[b].request_id == before[b].request_id);
                    }
                    assert forall|k: int| 0 <= k < before.len() implies #[trigger] after[k] == if before[k].request_id
                        == assignment_id {
                        QuoteAssignment { ckusdc_amount, ..before[k] }
                    } else {
                        before[k]
                    } by {
                        if k != i {
                            if k < i {
                                assert(before[k].request_id != before[i as int].request_id);
                            } else {
                                assert(before[i as int].request_id != before[k].request_id);
                            }
                        }
                    }
                }
                Ok(())
            },
        }
    }
}

/// A copy of the asset amounts.
pub fn copy_asset_amounts(items: &Vec<AssetAmount>) -> (out: Vec<AssetAmount>)
    ensures
        out@ == items@,
{
    let mut out: Vec<AssetAmount> = Vec::new();
    let mut i: usize = 0;
    while i < items.len()
        invariant
            i <= items.len(),
            out@ == items@.take(i as int),
        decreases items.len() - i,
    {
        out.push(items[i].clone());
        i += 1;
        assert(out@ =~= items@.take(i as int));
    }
    assert(items@.take(i as int) =~= items@);
    out
}

/// Whether a quote is admitted at time `now`: its signature must verify,
/// it must not be past its validity, and its nonce must be unused. The
/// checks are made in this order.
pub open spec fn quote_admission(key: Option<Vec<u8>>, used: Map<u64, u64>, quote: QuoteObject, now: u64) -> Result<
    (),
    Error,
> {
    match signature_check(key, quote) {
        Err(e) => Err(e),
        Ok(()) => if now > quote.valid_until {
            Err(Error::QuoteExpired { valid_until: quote.valid_until, now })
        } else if used.dom().contains(quote.nonce) {
            Err(Error::ReplayDetected)
        } else {
            Ok(())
        },
    }
}

/// What a quote reserves: settlement currency for a purchase, bundle tokens
/// for a redemption.
pub open spec fn reserved_fund(quote: QuoteObject) -> (LockedFundType, u64) {
    match quote.operation.kind_of() {
        OperationType::Buy => (LockedFundType::CkUSDC, quote.ckusdc_amount),
        OperationType::Sell => (LockedFundType::NAVTokens { bundle_id: quote.bundle_id }, quote.nav_tokens),
    }
}

/// An accepted quote on its way to a locked transaction.
#[derive(Clone, Copy, Debug)]
pub struct QuoteExecution {
    /// The transaction that was created for the quote.
    pub transaction_id: u64,
    /// The user who submitted the quote.
    pub user: PrincipalId,
    /// What is to be locked.
    pub fund_type: LockedFundType,
    /// How much is to be locked.
    pub amount: u64,
    /// The platform fee on the settlement amount.
    pub platform_fee: u64,
    /// When the quote was accepted.
    pub accepted_at: u64,
    /// The balance to ask for before the lock is made.
    pub balance_query: LedgerCall,
}

/// The execution that an admitted quote of `user` starts.
pub open spec fn started_execution(
    bundles: Seq<crate::types::BundleConfig>,
    quote: QuoteObject,
    user: PrincipalId,
    transaction_id: u64,
    now: u64,
) -> QuoteExecution {
    let bundle = bundle_of(bundles, quote.bundle_id);
    QuoteExecution {
        transaction_id,
        user,
        fund_type: reserved_fund(quote).0,
        amount: reserved_fund(quote).1,
        platform_fee: platform_fee(quote.ckusdc_amount, fee_bps_of(bundle)),
        accepted_at: now,
        balance_query: match quote.operation.kind_of() {
            OperationType::Buy => LedgerCall::SettlementBalance { account: user },
            OperationType::Sell => LedgerCall::TokenBalance { token: bundle.token_location, account: user },
        },
    }
}

/// Accepts a quote for `user` at time `now`: checks signature, freshness
/// and nonce, consumes the nonce, and creates the `Pending` transaction.
///
/// A quote that is not admitted changes nothing: an expired quote keeps its
/// nonce unused. Once the nonce is consumed it stays consumed, also where
/// the bundle is unknown and no transaction is created.
pub fn execute_quote(
    config: &GlobalState,
    nonces: &mut UsedNonces,
    bundles: &BundleStore,
    manager: &mut TransactionManager,
    quote: &QuoteObject,
    user: PrincipalId,
    now: u64,
) -> (r: Result<QuoteExecution, Error>)
    requires
        bundles.wf(),
        old(manager).wf(),
    ensures
        final(manager).wf(),
        final(manager).locks() == old(manager).locks(),
        match quote_admission(config.coordinator_public_key, old(nonces)@, *quote, now) {
            Err(e) => {
                &&& r == Err::<QuoteExecution, Error>(e)
                &&& final(nonces)@ == old(nonces)@
                &&& final(manager).transactions() == old(manager).transactions()
                &&& final(manager).counter() == old(manager).counter()
            },
            Ok(()) => {
                &&& final(nonces)@ == old(nonces)@.insert(quote.nonce, now)
                &&& (if !has_bundle(bundles@, quote.bundle_id) {
                    &&& r == Err::<QuoteExecution, Error>(Error::BundleNotFound { bundle_id: quote.bundle_id })
                    &&& final(manager).transactions() == old(manager).transactions()
                    &&& final(manager).counter() == old(manager).counter()
                } else if old(manager).counter() == u64::MAX {
                    &&& r == Err::<QuoteExecution, Error>(Error::CounterOverflow)
                    &&& final(manager).transactions() == old(manager).transactions()
                    &&& final(manager).counter() == old(manager).counter()
                } else {
                    &&& r == Ok::<QuoteExecution, Error>(
                        started_execution(bundles@, *quote, user, (old(manager).counter() + 1) as u64, now),
                    )
                    &&& final(manager).counter() == old(manager).counter() + 1
                    &&& final(manager).transactions() == old(manager).transactions().push(
                        new_transaction(
                            (old(manager).counter() + 1) as u64,
                            user,
                            quote.resolver,
                            quote.bundle_id,
                            quote.operation.kind_of(),
                            quote.nav_tokens,
                            quote.ckusdc_amount,
                            now,
                        ),
                    )
                })
            },
        },
{
    match validate_coordinator_signature(config, quote) {
        Ok(()) => {},
        Err(e) => {
            return Err(e);
        },
    }
    if now > quote.valid_until {
        return Err(Error::QuoteExpired { valid_until: quote.valid_until, now });
    }
    match consume_nonce(nonces, quote.nonce, now) {
        Ok(()) => {},
        Err(e) => {
            return Err(e);
        },
    }
    let (fee_bps, token) = match bundles.get_bundle(quote.bundle_id) {
        Ok(bundle) => (
            match bundle.platform_fee_bps {
                Some(bps) => bps,
                None => crate::memory::DEFAULT_PLATFORM_FEE_BPS,
            },
            bundle.token_location,
        ),
        Err(e) => {
            return Err(e);
        },
    };
    let platform_fee = compute_platform_fee(quote.ckusdc_amount, fee_bps);
    let operation = quote.operation.kind();
    let transaction_id = match manager.create_transaction(
        user,
        quote.resolver,
        quote.bundle_id,
        operation,
        quote.nav_tokens,
        quote.ckusdc_amount,
        now,
    ) {
        Ok(id) => id,
        Err(e) => {
            return Err(e);
        },
    };
    Ok(
        match operation {
            OperationType::Buy => QuoteExecution {
                transaction_id,
                user,
                fund_type: LockedFundType::CkUSDC,
                amount: quote.ckusdc_amount,
                platform_fee,
                accepted_at: now,
                balance_query: LedgerCall::SettlementBalance { account: user },
            },
            OperationType::Sell => QuoteExecution {
                transaction_id,
                user,
                fund_type: LockedFundType::NAVTokens { bundle_id: quote.bundle_id },
                amount: quote.nav_tokens,
                platform_fee,
                accepted_at: now,
                balance_query: LedgerCall::TokenBalance { token, account: user },
            },
        },
    )
}

/// The call that pulls the locked settlement currency of a purchase from
/// the user into escrow; a redemption pulls nothing.
pub open spec fn escrow_pull(execution: QuoteExecution, escrow: PrincipalId) -> Option<LedgerCall> {
    match execution.fund_type {
        LockedFundType::CkUSDC => Some(
            LedgerCall::SettlementTransferFrom { from: execution.user, to: escrow, amount: execution.amount },
        ),
        LockedFundType::NAVTokens { .. } => None,
    }
}

/// Locks the funds of an accepted quote, given the user's balance as the
/// ledger answered it, and says what to pull into escrow.
///
/// The lock is refused, and nothing changes, where the ledger call failed,
/// where a lock exists already, where the transaction is no longer
/// `Pending`, and where the balance less the user's other locks does not
/// cover the amount.
pub fn lock_quote_funds(
    manager: &mut TransactionManager,
    execution: &QuoteExecution,
    escrow: PrincipalId,
    balance_reply: Result<u64, String>,
    now: u64,
) -> (r: Result<Option<LedgerRequest>, Error>)
    requires
        old(manager).wf(),
    ensures
        final(manager).wf(),
        final(manager).counter() == old(manager).counter(),
        match lock_verdict(
            old(manager).transactions(),
            old(manager).locks(),
            *execution,
            reply_value(balance_reply),
        ) {
            Err(e) => {
                &&& r == Err::<Option<LedgerRequest>, Error>(e)
                &&& final(manager).transactions() == old(manager).transactions()
                &&& final(manager).locks() == old(manager).locks()
            },
            Ok(()) => {
                &&& final(manager).locks() == old(manager).locks().push(
                    new_lock(
                        transaction_of(old(manager).transactions(), execution.transaction_id),
                        execution.fund_type,
                        execution.amount,
                        now,
                    ),
                )
                &&& final(manager).transactions() == with_transition(
                    old(manager).transactions(),
                    execution.transaction_id,
                    TransactionStatus::FundsLocked,
                    now,
                )
                &&& r is Ok
                &&& match r->Ok_0 {
                    Some(request) => escrow_pull(*execution, escrow) == Some(request.call) && request.memo@
                        == plain_memo("Lock ckUSDC for tx "@, execution.transaction_id),
                    None => escrow_pull(*execution, escrow) is None,
                }
            },
        },
{
    let balance = match balance_reply {
        Ok(balance) => balance,
        Err(reason) => {
            return Err(Error::LedgerCallFailed { reason });
        },
    };
    match manager.lock_user_funds_with_validation(
        execution.transaction_id,
        execution.fund_type,
        execution.amount,
        balance,
        now,
    ) {
        Ok(()) => {},
        Err(e) => {
            return Err(e);
        },
    }
    match execution.fund_type {
        LockedFundType::CkUSDC => Ok(
            Some(
                LedgerRequest {
                    call: LedgerCall::SettlementTransferFrom {
                        from: execution.user,
                        to: escrow,
                        amount: execution.amount,
                    },
                    memo: memo("Lock ckUSDC for tx ", execution.transaction_id, "", None, "", None, ""),
                },
            ),
        ),
        LockedFundType::NAVTokens { .. } => Ok(None),
    }
}

/// Whether the funds of an accepted quote can be locked, given what the
/// ledger answered to the balance query.
pub open spec fn lock_verdict(
    txs: Seq<crate::types::Transaction>,
    locks: Seq<crate::types::LockedFunds>,
    execution: QuoteExecution,
    balance: Result<u64, Error>,
) -> Result<(), Error> {
    match balance {
        Err(e) => Err(e),
        Ok(b) => lock_result(txs, locks, execution.transaction_id, execution.fund_type, execution.amount, Some(b)),
    }
}

/// Stores the assignment of an accepted quote once its funds are locked
/// and, for a purchase, pulled into escrow: `pull_reply` is what the ledger
/// answered to the pull, and `None` where nothing was to be pulled. Returns
/// the id of the transaction. Where the pull failed nothing is stored.
pub fn complete_quote(
    assignments: &mut AssignmentStore,
    quote: &QuoteObject,
    execution: &QuoteExecution,
    pull_reply: Option<Result<u64, String>>,
) -> (r: Result<u64, Error>)
    requires
        old(assignments).wf(),
    ensures
        final(assignments).wf(),
        match pull_reply {
            Some(Err(reason)) => r == Err::<u64, Error>(Error::LedgerCallFailed { reason }) && final(assignments)@
                == old(assignments)@,
            _ => {
                &&& r == Ok::<u64, Error>(execution.transaction_id)
                &&& has_assignment(final(assignments)@, execution.transaction_id)
                &&& same_assignment(
                    assignment_of(final(assignments)@, execution.transaction_id),
                    *quote,
                    *execution,
                )
                &&& forall|id: u64|
                    id != execution.transaction_id ==> (#[trigger] has_assignment(final(assignments)@, id))
                        == has_assignment(old(assignments)@, id)
                &&& forall|id: u64|
                    id != execution.transaction_id && has_assignment(old(assignments)@, id)
                        ==> #[trigger] assignment_of(final(assignments)@, id) == assignment_of(
                        old(assignments)@,
                        id,
                    )
            },
        },
{
    match pull_reply {
        Some(Err(reason)) => {
            return Err(Error::LedgerCallFailed { reason });
        },
        _ => {},
    }
    let assignment = QuoteAssignment {
        request_id: execution.transaction_id,
        resolver: quote.resolver,
        nav_tokens: quote.nav_tokens,
        ckusdc_amount: quote.ckusdc_amount,
        asset_amounts: copy_asset_amounts(&quote.asset_amounts),
        estimated_nav: 0,
        fees: execution.platform_fee,
        valid_until: quote.valid_until,
        assigned_at: execution.accepted_at,
    };
    assignments.store_assignment(assignment);
    Ok(execution.transaction_id)
}

/// Whether the assignment is the one that is stored for the quote.
pub open spec fn same_assignment(assignment: QuoteAssignment, quote: QuoteObject, execution: QuoteExecution) -> bool {
    &&& assignment.request_id == execution.transaction_id
    &&& assignment.resolver == quote.resolver
    &&& assignment.nav_tokens == quote.nav_tokens
    &&& assignment.ckusdc_amount == quote.ckusdc_amount
    &&& assignment.asset_amounts@ == quote.asset_amounts@
    &&& assignment.estimated_nav == 0
    &&& assignment.fees == execution.platform_fee
    &&& assignment.valid_until == quote.valid_until
    &&& assignment.assigned_at == execution.accepted_at
}

/// A nonce admits at most one quote: a quote whose nonce is used is not
/// admitted, whatever else it holds, and where its signature verifies and
/// it is not expired the reason is `ReplayDetected`.
pub proof fn lemma_used_nonce_is_refused(key: Option<Vec<u8>>, used: Map<u64, u64>, quote: QuoteObject, now: u64)
    requires
        used.dom().contains(quote.nonce),
    ensures
        quote_admission(key, used, quote, now) is Err,
        signature_check(key, quote) is Ok && now <= quote.valid_until ==> quote_admission(key, used, quote, now)
            == Err::<(), Error>(Error::ReplayDetected),
{
}

/// Once a quote is admitted and its nonce consumed, no quote with the same
/// nonce is admitted again, at any later time and however many other
/// nonces are consumed in between.
pub proof fn lemma_nonce_is_accepted_once(
    key: Option<Vec<u8>>,
    used: Map<u64, u64>,
    first: QuoteObject,
    accepted_at: u64,
    later_used: Map<u64, u64>,
    second: QuoteObject,
    other_key: Option<Vec<u8>>,
    now: u64,
)
    requires
        quote_admission(key, used, first, accepted_at) is Ok,
        second.nonce == first.nonce,
        used.insert(first.nonce, accepted_at).submap_of(later_used),
    ensures
        quote_admission(other_key, later_used, second, now) is Err,
{
    assert(used.insert(first.nonce, accepted_at).dom().contains(first.nonce));
    assert(later_used.dom().contains(second.nonce));
}

impl AssignmentStore {
    /// How many assignments are stored.
    pub fn len(&self) -> (n: usize)
        ensures
            n == self@.len(),
    {
        self.items.len()
    }

    /// The assignment at a position, in the order in which the assignments
    /// were first stored.
    pub fn get_at(&self, index: usize) -> (a: &QuoteAssignment)
        requires
            index < self@.len(),
        ensures
            *a == self@[index as int],
    {
        &self.items[index]
    }
}

} // verus!
