//! Fixed-point valuation: holding values, value per token, conversion
//! between decimal precisions, and the display of fixed-point amounts.
//!
//! Prices and USD values carry eight decimals. Every division truncates
//! toward zero, so a conversion to fewer decimals can only lose value,
//! never create it.

use vstd::prelude::*;
use vstd::string::StringExecFns;
use crate::error::Error;
use crate::text::{ascii_chars, decimal_chars, digit_byte, push_decimal, string_push};
use crate::types::{AssetAllocation, AssetId, NAVPrecisionReport, SupplyValidationResult, XFusionNAVToken};

verus! {

/// The number of decimals of prices and USD values.
pub const USD_DECIMALS: u8 = 8;

/// The largest number of decimals an asset or a precision may have.
pub const MAX_DECIMALS: u8 = 18;

/// The largest number of constituents of a bundle.
pub const MAX_ALLOCATIONS: usize = 20;

/// Ten to the power `e`.
pub open spec fn pow10(e: nat) -> nat
    decreases e,
{
    if e == 0 {
        1
    } else {
        10 * pow10((e - 1) as nat)
    }
}

/// Powers of ten are positive and grow with the exponent.
pub proof fn lemma_pow10_monotonic(a: nat, b: nat)
    requires
        a <= b,
    ensures
        1 <= pow10(a) <= pow10(b),
    decreases b,
{
    if b == 0 {
    } else if a == b {
        lemma_pow10_monotonic(0, (b - 1) as nat);
    } else {
        lemma_pow10_monotonic(a, (b - 1) as nat);
    }
}

/// The values of the powers of ten that matter for 64-bit amounts.
pub proof fn lemma_pow10_values()
    ensures
        pow10(8) == 100_000_000,
        pow10(18) == 1_000_000_000_000_000_000,
        pow10(19) == 10_000_000_000_000_000_000,
        pow10(20) > u64::MAX,
{
    reveal_with_fuel(pow10, 21);
}

/// Ten to the power `e`, or `None` where that exceeds 64 bits.
pub fn pow10_checked(e: u8) -> (r: Option<u64>)
    ensures
        r matches Some(v) ==> v == pow10(e as nat),
        r is None <==> pow10(e as nat) > u64::MAX,
{
    if e > 19 {
        proof {
            lemma_pow10_values();
            lemma_pow10_monotonic(20, e as nat);
        }
        return None;
    }
    let mut r: u64 = 1;
    let mut i: u8 = 0;
    while i < e
        invariant
            i <= e <= 19,
            r == pow10(i as nat),
        decreases e - i,
    {
        proof {
            lemma_pow10_values();
            lemma_pow10_monotonic((i + 1) as nat, 19);
        }
        r = r * 10;
        i = i + 1;
    }
    proof {
        lemma_pow10_values();
        lemma_pow10_monotonic(e as nat, 19);
    }
    Some(r)
}

/// The USD value of `amount` base units of an asset with `decimals`
/// decimals at `price` USD per whole unit, truncated to eight decimals.
pub open spec fn holding_value(amount: nat, price: nat, decimals: nat) -> nat {
    amount * price / pow10(decimals)
}

/// What `calculate_holding_value_usd` returns.
pub open spec fn holding_value_usd(amount: u64, price: u64, decimals: u8) -> Result<u64, Error> {
    if decimals > MAX_DECIMALS {
        Err(Error::InvalidDecimals)
    } else if holding_value(amount as nat, price as nat, decimals as nat) > u64::MAX {
        Err(Error::ValueOverflow)
    } else {
        Ok(holding_value(amount as nat, price as nat, decimals as nat) as u64)
    }
}

/// The USD value of a holding: `amount * price / 10^decimals`, computed
/// without intermediate overflow. Fails for more than 18 decimals and for a
/// value that does not fit in 64 bits.
pub fn calculate_holding_value_usd(holding_amount: u64, asset_price_usd: u64, asset_decimals: u8) -> (r:
    Result<u64, Error>)
    ensures
        r == holding_value_usd(holding_amount, asset_price_usd, asset_decimals),
{
    if asset_decimals > MAX_DECIMALS {
        return Err(Error::InvalidDecimals);
    }
    proof {
        lemma_pow10_values();
        lemma_pow10_monotonic(asset_decimals as nat, 18);
    }
    let factor: u64 = match pow10_checked(asset_decimals) {
        Some(f) => f,
        None => {
            return Err(Error::InvalidDecimals);
        },
    };
    assert(holding_amount as u128 * asset_price_usd as u128 <= 0xFFFF_FFFF_FFFF_FFFF
        * 0xFFFF_FFFF_FFFF_FFFF) by (nonlinear_arith)
        requires
            holding_amount <= 0xFFFF_FFFF_FFFF_FFFF,
            asset_price_usd <= 0xFFFF_FFFF_FFFF_FFFF,
    ;
    let product: u128 = holding_amount as u128 * asset_price_usd as u128;
    let value: u128 = product / (factor as u128);
    if value > u64::MAX as u128 {
        Err(Error::ValueOverflow)
    } else {
        Ok(value as u64)
    }
}

/// `amount` at `from` decimals expressed at `to` decimals, when it fits:
/// multiplied by a power of ten for more decimals, divided with truncation
/// for fewer.
pub open spec fn converted_amount(amount: nat, from: nat, to: nat) -> nat {
    if from >= to {
        amount / pow10((from - to) as nat)
    } else {
        amount * pow10((to - from) as nat)
    }
}

/// What `convert_amount_between_decimals` returns.
pub open spec fn convert_amount(amount: u64, from: u8, to: u8) -> Result<u64, Error> {
    if converted_amount(amount as nat, from as nat, to as nat) > u64::MAX {
        Err(Error::ConversionOverflow)
    } else {
        Ok(converted_amount(amount as nat, from as nat, to as nat) as u64)
    }
}

/// Converts an amount between decimal precisions. Going to fewer decimals
/// truncates toward zero; going to more decimals fails where the result
/// does not fit in 64 bits.
pub fn convert_amount_between_decimals(amount: u64, from_decimals: u8, to_decimals: u8) -> (r: Result<
    u64,
    Error,
>)
    ensures
        r == convert_amount(amount, from_decimals, to_decimals),
{
    if from_decimals == to_decimals {
        assert(pow10(0) == 1);
        return Ok(amount);
    }
    if from_decimals > to_decimals {
        proof {
            lemma_pow10_monotonic(0, (from_decimals - to_decimals) as nat);
        }
        match pow10_checked(from_decimals - to_decimals) {
            Some(scale) => Ok(amount / scale),
            None => {
                proof {
                    lemma_small_quotient(amount as nat, pow10((from_decimals - to_decimals) as nat));
                }
                Ok(0)
            },
        }
    } else {
        let ghost scale_n = pow10((to_decimals - from_decimals) as nat);
        proof {
            lemma_pow10_monotonic(0, (to_decimals - from_decimals) as nat);
        }
        if amount == 0 {
            assert(0 * scale_n == 0);
            return Ok(0);
        }
        match pow10_checked(to_decimals - from_decimals) {
            Some(scale) => {
                match amount.checked_mul(scale) {
                    Some(v) => Ok(v),
                    None => Err(Error::ConversionOverflow),
                }
            },
            None => {
                assert(amount * scale_n >= scale_n) by (nonlinear_arith)
                    requires
                        amount >= 1,
                        scale_n >= 0,
                ;
                Err(Error::ConversionOverflow)
            },
        }
    }
}

/// A number smaller than the divisor has quotient zero.
pub proof fn lemma_small_quotient(n: nat, d: nat)
    requires
        n < d,
    ensures
        n / d == 0,
{
    vstd::arithmetic::div_mod::lemma_basic_div(n as int, d as int);
}

/// What `normalize_amount_to_usd` returns.
pub open spec fn normalized_usd(amount: u64, decimals: u8, price: u64) -> Result<u64, Error> {
    if amount as nat * price as nat > u64::MAX {
        Err(Error::NormalizationOverflow)
    } else {
        Ok(holding_value(amount as nat, price as nat, decimals as nat) as u64)
    }
}

/// The USD value of an amount, with 64-bit checked arithmetic: fails where
/// `amount * price_per_unit` itself does not fit in 64 bits.
pub fn normalize_amount_to_usd(amount: u64, asset_decimals: u8, price_per_unit: u64) -> (r: Result<
    u64,
    Error,
>)
    ensures
        r == normalized_usd(amount, asset_decimals, price_per_unit),
{
    let product: u64 = match amount.checked_mul(price_per_unit) {
        Some(p) => p,
        None => {
            return Err(Error::NormalizationOverflow);
        },
    };
    proof {
        lemma_pow10_monotonic(0, asset_decimals as nat);
    }
    match pow10_checked(asset_decimals) {
        Some(factor) => Ok(product / factor),
        None => {
            proof {
                lemma_small_quotient(product as nat, pow10(asset_decimals as nat));
            }
            Ok(0)
        },
    }
}

/// What `calculate_nav_per_token_with_supply_validation` returns: the total
/// value is first brought from eight decimals to the requested precision,
/// then divided by the number of tokens.
pub open spec fn nav_per_token(total_usd_value: u64, total_tokens: u64, precision: u8) -> Result<
    u64,
    Error,
> {
    if total_tokens == 0 {
        Ok(0)
    } else if precision > MAX_DECIMALS {
        Err(Error::InvalidPrecision)
    } else {
        match convert_amount(total_usd_value, USD_DECIMALS, precision) {
            Ok(scaled) => Ok((scaled as nat / total_tokens as nat) as u64),
            Err(e) => Err(e),
        }
    }
}

/// The value of one token at `precision_decimals` decimals: zero when no
/// token exists; fails for a precision above 18 and where scaling the total
/// value overflows 64 bits.
pub fn calculate_nav_per_token_with_supply_validation(
    total_usd_value: u64,
    total_tokens: u64,
    precision_decimals: u8,
) -> (r: Result<u64, Error>)
    ensures
        r == nav_per_token(total_usd_value, total_tokens, precision_decimals),
{
    if total_tokens == 0 {
        return Ok(0);
    }
    if precision_decimals > MAX_DECIMALS {
        return Err(Error::InvalidPrecision);
    }
    match convert_amount_between_decimals(total_usd_value, USD_DECIMALS, precision_decimals) {
        Ok(scaled) => Ok(scaled / total_tokens),
        Err(e) => Err(e),
    }
}

/// The value of one token, or zero where it cannot be computed.
pub fn calculate_precise_nav_per_token(total_usd_value: u64, total_tokens: u64, precision_decimals: u8) -> (r:
    u64)
    ensures
        r == match nav_per_token(total_usd_value, total_tokens, precision_decimals) {
            Ok(v) => v,
            Err(_) => 0,
        },
{
    match calculate_nav_per_token_with_supply_validation(total_usd_value, total_tokens, precision_decimals) {
        Ok(v) => v,
        Err(_) => 0,
    }
}

/// A price with eight decimals rescaled by the distance of `decimals` from
/// eight: multiplied for more decimals (unchanged where that overflows),
/// divided with truncation for fewer.
pub open spec fn adjusted_price(price_usd: u64, decimals: u8) -> u64 {
    if decimals >= USD_DECIMALS {
        if price_usd as nat * pow10((decimals - USD_DECIMALS) as nat) > u64::MAX {
            price_usd
        } else {
            (price_usd as nat * pow10((decimals - USD_DECIMALS) as nat)) as u64
        }
    } else {
        (price_usd as nat / pow10((USD_DECIMALS - decimals) as nat)) as u64
    }
}

/// Rescales a USD price for an asset with `decimals` decimals.
pub fn adjust_price_for_decimals(price_usd: u64, decimals: u8) -> (r: u64)
    ensures
        r == adjusted_price(price_usd, decimals),
{
    if decimals >= USD_DECIMALS {
        let ghost scale_n = pow10((decimals - USD_DECIMALS) as nat);
        proof {
            lemma_pow10_monotonic(0, (decimals - USD_DECIMALS) as nat);
        }
        if price_usd == 0 {
            assert(0 * scale_n == 0);
            return 0;
        }
        match pow10_checked(decimals - USD_DECIMALS) {
            Some(scale) => match price_usd.checked_mul(scale) {
                Some(v) => v,
                None => price_usd,
            },
            None => {
                assert(price_usd * scale_n >= scale_n) by (nonlinear_arith)
                    requires
                        price_usd >= 1,
                        scale_n >= 0,
                ;
                price_usd
            },
        }
    } else {
        proof {
            lemma_pow10_values();
            lemma_pow10_monotonic((USD_DECIMALS - decimals) as nat, 8);
            lemma_pow10_monotonic(0, (USD_DECIMALS - decimals) as nat);
        }
        match pow10_checked(USD_DECIMALS - decimals) {
            Some(scale) => price_usd / scale,
            None => price_usd,
        }
    }
}

/// An amount is stored in the asset's own base units: scaling it to the
/// asset's decimals leaves it as it is.
pub fn scale_amount_to_decimals(amount: u64, decimals: u8) -> (r: u64)
    ensures
        r == amount,
{
    amount
}

/// Converting to fewer decimals and back returns the amount, where the
/// amount has no digits below the coarser precision.
pub proof fn lemma_round_trip_through_fewer_decimals(amount: u64, fine: u8, coarse: u8)
    requires
        coarse <= fine,
        amount as nat % pow10((fine - coarse) as nat) == 0,
    ensures
        convert_amount(amount, fine, coarse) matches Ok(v) && convert_amount(v, coarse, fine) == Ok::<
            u64,
            Error,
        >(amount),
{
    let d = pow10((fine - coarse) as nat);
    lemma_pow10_monotonic(0, (fine - coarse) as nat);
    let q = amount as nat / d;
    vstd::arithmetic::div_mod::lemma_fundamental_div_mod(amount as int, d as int);
    assert(q * d == amount) by (nonlinear_arith)
        requires
            amount == d * q + 0,
    ;
    assert(q <= amount) by (nonlinear_arith)
        requires
            q * d == amount,
            d >= 1,
            q >= 0,
    ;
    assert(converted_amount(amount as nat, fine as nat, coarse as nat) == q);
    if fine == coarse {
        assert(d == 1);
        assert(q == amount as nat / 1);
        assert(converted_amount(q, coarse as nat, fine as nat) == q / 1);
    } else {
        assert(converted_amount(q, coarse as nat, fine as nat) == q * d);
    }
}

/// Converting to more decimals and back returns the amount, where the
/// finer amount fits in 64 bits.
pub proof fn lemma_round_trip_through_more_decimals(amount: u64, coarse: u8, fine: u8)
    requires
        coarse <= fine,
        convert_amount(amount, coarse, fine) is Ok,
    ensures
        convert_amount(amount, coarse, fine) matches Ok(v) && convert_amount(v, fine, coarse) == Ok::<
            u64,
            Error,
        >(amount),
{
    let d = pow10((fine - coarse) as nat);
    lemma_pow10_monotonic(0, (fine - coarse) as nat);
    if fine == coarse {
        assert(d == 1);
        assert(amount as nat / 1 == amount);
    } else {
        vstd::arithmetic::div_mod::lemma_div_multiples_vanish(amount as int, d as int);
        assert(amount as nat * d == d * amount as nat) by (nonlinear_arith);
    }
}

/// `frac` as exactly `width` decimal digits, with zeros in front.
pub open spec fn fraction_bytes(frac: nat, width: nat) -> Seq<u8>
    decreases width,
{
    if width == 0 {
        Seq::<u8>::empty()
    } else {
        fraction_bytes(frac / 10, (width - 1) as nat).push(digit_byte(frac % 10))
    }
}

/// `digits` without the zeros at its end.
pub open spec fn trim_trailing_zeros(digits: Seq<u8>) -> Seq<u8>
    decreases digits.len(),
{
    if digits.len() > 0 && digits.last() == 48 {
        trim_trailing_zeros(digits.drop_last())
    } else {
        digits
    }
}

/// The display of a fixed-point value, as ASCII bytes: the whole part, and
/// for a positive precision a point and the fraction. A zero fraction is
/// written out in full; any other fraction loses the zeros at its end.
pub open spec fn formatted_nav_bytes(value: nat, precision: nat) -> Seq<u8> {
    let whole = value / pow10(precision);
    let frac = value % pow10(precision);
    if precision == 0 {
        crate::text::decimal_bytes(value)
    } else if frac == 0 {
        crate::text::decimal_bytes(whole) + seq![46u8] + fraction_bytes(0, precision)
    } else {
        crate::text::decimal_bytes(whole) + seq![46u8] + trim_trailing_zeros(
            fraction_bytes(frac, precision),
        )
    }
}

/// The display of a fixed-point value.
pub open spec fn formatted_nav(value: u64, precision: u8) -> Seq<char> {
    ascii_chars(formatted_nav_bytes(value as nat, precision as nat))
}

/// A positive fraction keeps at least one digit when the zeros at its end
/// are taken away.
pub proof fn lemma_trimmed_fraction_is_not_empty(frac: nat, width: nat)
    requires
        0 < frac < pow10(width),
    ensures
        trim_trailing_zeros(fraction_bytes(frac, width)).len() > 0,
    decreases width,
{
    if width == 0 {
    } else {
        let digits = fraction_bytes(frac, width);
        assert(digits.last() == digit_byte(frac % 10));
        assert(digits.drop_last() =~= fraction_bytes(frac / 10, (width - 1) as nat));
        if frac % 10 == 0 {
            assert(frac / 10 > 0);
            assert(frac / 10 < pow10((width - 1) as nat));
            lemma_trimmed_fraction_is_not_empty(frac / 10, (width - 1) as nat);
        }
    }
}

fn push_fraction(out: &mut Vec<u8>, frac: u64, width: u8)
    ensures
        final(out)@ == old(out)@ + fraction_bytes(frac as nat, width as nat),
    decreases width,
{
    if width > 0 {
        push_fraction(out, frac / 10, width - 1);
        let d: u8 = (frac % 10) as u8;
        out.push(48u8 + d);
    }
    assert(out@ =~= old(out)@ + fraction_bytes(frac as nat, width as nat));
}

fn fraction_digits(frac: u64, width: u8, trim: bool) -> (out: Vec<u8>)
    ensures
        out@ == if trim {
            trim_trailing_zeros(fraction_bytes(frac as nat, width as nat))
        } else {
            fraction_bytes(frac as nat, width as nat)
        },
{
    let mut out: Vec<u8> = Vec::new();
    push_fraction(&mut out, frac, width);
    assert(out@ =~= fraction_bytes(frac as nat, width as nat));
    if trim {
        let ghost full = out@;
        while out.len() > 0 && out[out.len() - 1] == 48u8
            invariant
                trim_trailing_zeros(out@) == trim_trailing_zeros(full),
            decreases out.len(),
        {
            let ghost before = out@;
            out.pop();
            assert(out@ =~= before.drop_last());
        }
    }
    out
}

/// The string whose characters have the given bytes as code points.
pub fn ascii_string(bytes: &Vec<u8>) -> (s: String)
    ensures
        s@ == ascii_chars(bytes@),
{
    let mut s = String::new();
    let mut i: usize = 0;
    while i < bytes.len()
        invariant
            i <= bytes.len(),
            s@ == ascii_chars(bytes@.take(i as int)),
        decreases bytes.len() - i,
    {
        string_push(&mut s, bytes[i] as char);
        i += 1;
        assert(s@ =~= ascii_chars(bytes@.take(i as int)));
    }
    assert(bytes@.take(i as int) =~= bytes@);
    s
}

/// Renders a fixed-point value with `precision_decimals` decimals.
pub fn format_nav_with_precision(nav_value: u64, precision_decimals: u8) -> (s: String)
    ensures
        s@ == formatted_nav(nav_value, precision_decimals),
{
    let mut out: Vec<u8> = Vec::new();
    if precision_decimals == 0 {
        crate::text::push_decimal_bytes(&mut out, nav_value);
        assert(out@ =~= formatted_nav_bytes(nav_value as nat, 0));
        return ascii_string(&out);
    }
    proof {
        lemma_pow10_monotonic(0, precision_decimals as nat);
    }
    let (whole, frac): (u64, u64) = match pow10_checked(precision_decimals) {
        Some(factor) => (nav_value / factor, nav_value % factor),
        None => {
            proof {
                lemma_small_quotient(nav_value as nat, pow10(precision_decimals as nat));
                vstd::arithmetic::div_mod::lemma_small_mod(
                    nav_value as nat,
                    pow10(precision_decimals as nat),
                );
            }
            (0, nav_value)
        },
    };
    crate::text::push_decimal_bytes(&mut out, whole);
    out.push(46u8);
    let mut digits = fraction_digits(frac, precision_decimals, frac != 0);
    out.append(&mut digits);
    assert(out@ =~= formatted_nav_bytes(nav_value as nat, precision_decimals as nat));
    ascii_string(&out)
}

/// The sum of the percentages.
pub open spec fn total_percentage(allocations: Seq<AssetAllocation>) -> nat
    decreases allocations.len(),
{
    if allocations.len() == 0 {
        0
    } else {
        total_percentage(allocations.drop_last()) + allocations.last().percentage as nat
    }
}

/// Whether the asset at `index` occurs at an earlier index too.
pub open spec fn repeats_earlier_asset(allocations: Seq<AssetAllocation>, index: int) -> bool {
    exists|i: int| 0 <= i < index && allocations[i].asset_id@ == allocations[index].asset_id@
}

/// The first index at or after `from` whose asset occurs earlier.
pub open spec fn first_repeated_asset(allocations: Seq<AssetAllocation>, from: int) -> Option<int>
    decreases allocations.len() - from,
{
    if from < 0 || from >= allocations.len() {
        None
    } else if repeats_earlier_asset(allocations, from) {
        Some(from)
    } else {
        first_repeated_asset(allocations, from + 1)
    }
}

/// What `validate_bundle_allocations` returns: the first rule, in this
/// order, that the allocations break.
pub open spec fn checked_allocations(allocations: Seq<AssetAllocation>) -> Result<(), Error> {
    if allocations.len() == 0 {
        Err(Error::EmptyAllocations)
    } else if allocations.len() > MAX_ALLOCATIONS {
        Err(Error::TooManyAllocations)
    } else if total_percentage(allocations) != 100 {
        Err(Error::TotalPercentage { got: total_percentage(allocations) as u32 })
    } else if exists|i: int| 0 <= i < allocations.len() && allocations[i].percentage == 0 {
        Err(Error::ZeroPercentage)
    } else {
        match first_repeated_asset(allocations, 0) {
            Some(index) => Err(Error::DuplicateAsset { asset_id: allocations[index].asset_id }),
            None => Ok(()),
        }
    }
}

/// A bundle's allocations are valid when there are between one and twenty
/// of them, each with a positive share, the shares sum to 100, and no asset
/// occurs twice.
pub open spec fn valid_allocations(allocations: Seq<AssetAllocation>) -> bool {
    &&& 1 <= allocations.len() <= MAX_ALLOCATIONS
    &&& total_percentage(allocations) == 100
    &&& forall|i: int| 0 <= i < allocations.len() ==> allocations[i].percentage > 0
    &&& forall|i: int, j: int|
        0 <= i < j < allocations.len() ==> allocations[i].asset_id@ != allocations[j].asset_id@
}

/// The allocations pass the check exactly when they are valid.
pub proof fn lemma_checked_allocations_valid(allocations: Seq<AssetAllocation>)
    ensures
        checked_allocations(allocations) is Ok <==> valid_allocations(allocations),
{
    lemma_no_repeated_asset(allocations, 0);
    if first_repeated_asset(allocations, 0) is None {
        assert forall|i: int, j: int| 0 <= i < j < allocations.len() implies allocations[i].asset_id@
            != allocations[j].asset_id@ by {
            assert(!repeats_earlier_asset(allocations, j));
        }
    }
}

/// What `first_repeated_asset` finds is a repeat and the first one; where
/// it finds nothing there is none.
pub proof fn lemma_no_repeated_asset(allocations: Seq<AssetAllocation>, from: int)
    requires
        0 <= from,
    ensures
        match first_repeated_asset(allocations, from) {
            Some(index) => from <= index < allocations.len() && repeats_earlier_asset(
                allocations,
                index,
            ) && forall|k: int| from <= k < index ==> !repeats_earlier_asset(allocations, k),
            None => forall|k: int|
                from <= k < allocations.len() ==> !repeats_earlier_asset(allocations, k),
        },
    decreases allocations.len() - from,
{
    if from < allocations.len() && !repeats_earlier_asset(allocations, from) {
        lemma_no_repeated_asset(allocations, from + 1);
    }
}

/// Checks a bundle's allocations and names the first rule they break.
pub fn validate_bundle_allocations(allocations: &[AssetAllocation]) -> (r: Result<(), Error>)
    ensures
        r == checked_allocations(allocations@),
        r is Ok <==> valid_allocations(allocations@),
{
    proof {
        lemma_checked_allocations_valid(allocations@);
    }
    let n = allocations.len();
    if n == 0 {
        return Err(Error::EmptyAllocations);
    }
    if n > MAX_ALLOCATIONS {
        return Err(Error::TooManyAllocations);
    }
    let mut total: u32 = 0;
    let mut any_zero = false;
    let mut i: usize = 0;
    while i < n
        invariant
            i <= n <= 20,
            n == allocations@.len(),
            total == total_percentage(allocations@.take(i as int)),
            total <= 255 * i,
            any_zero <==> exists|k: int| 0 <= k < i && allocations@[k].percentage == 0,
        decreases n - i,
    {
        assert(allocations@.take(i + 1).drop_last() =~= allocations@.take(i as int));
        total = total + allocations[i].percentage as u32;
        if allocations[i].percentage == 0 {
            any_zero = true;
        }
        i += 1;
    }
    assert(allocations@.take(n as int) =~= allocations@);
    if total != 100 {
        return Err(Error::TotalPercentage { got: total });
    }
    if any_zero {
        return Err(Error::ZeroPercentage);
    }
    let mut j: usize = 0;
    while j < n
        invariant
            j <= n,
            1 <= n <= 20,
            n == allocations@.len(),
            total_percentage(allocations@) == 100,
            !exists|i: int| 0 <= i < allocations@.len() && allocations@[i].percentage == 0,
            first_repeated_asset(allocations@, 0) == first_repeated_asset(allocations@, j as int),
        decreases n - j,
    {
        let mut k: usize = 0;
        while k < j
            invariant
                k <= j < n,
                1 <= n <= 20,
                n == allocations@.len(),
                total_percentage(allocations@) == 100,
                !exists|i: int| 0 <= i < allocations@.len() && allocations@[i].percentage == 0,
                first_repeated_asset(allocations@, 0) == first_repeated_asset(allocations@, j as int),
                forall|m: int| 0 <= m < k ==> allocations@[m].asset_id@ != allocations@[j as int].asset_id@,
            decreases j - k,
        {
            if allocations[k].asset_id == allocations[j].asset_id {
                assert(repeats_earlier_asset(allocations@, j as int));
                return Err(Error::DuplicateAsset { asset_id: allocations[j].asset_id.clone() });
            }
            k += 1;
        }
        assert(!repeats_earlier_asset(allocations@, j as int));
        j += 1;
    }
    Ok(())
}

/// The amount of an asset that an allocation buys, and its USD value.
#[derive(Clone, Copy, Debug, PartialEq, Eq, Structural)]
pub struct AllocationValue {
    pub amount: u64,
    pub value_usd: u64,
}

/// What `calculate_allocation_value_with_decimals` returns: each token
/// starts at one USD; the allocation's share of the total is divided by the
/// rescaled price, and the amount so bought is valued at the price again.
pub open spec fn allocation_value(tokens: u64, percentage: u8, price: u64, decimals: u8) -> Result<
    AllocationValue,
    Error,
> {
    let base = tokens as nat * pow10(8);
    let share = base * percentage as nat / 100;
    let unit = adjusted_price(price, decimals);
    let amount = if unit > 0 {
        share / unit as nat
    } else {
        0
    };
    if percentage > 100 {
        Err(Error::PercentageTooHigh)
    } else if base * percentage as nat > u64::MAX || amount * price as nat > u64::MAX {
        Err(Error::AllocationOverflow)
    } else {
        Ok(
            AllocationValue {
                amount: amount as u64,
                value_usd: holding_value(amount, price as nat, decimals as nat) as u64,
            },
        )
    }
}

/// The amount of an asset with `asset_decimals` decimals that an allocation
/// of `allocation_percentage` percent buys, and its USD value.
pub fn calculate_allocation_value_with_decimals(
    total_nav_tokens: u64,
    allocation_percentage: u8,
    asset_price_usd: u64,
    asset_decimals: u8,
) -> (r: Result<AllocationValue, Error>)
    ensures
        r == allocation_value(total_nav_tokens, allocation_percentage, asset_price_usd, asset_decimals),
{
    if allocation_percentage > 100 {
        return Err(Error::PercentageTooHigh);
    }
    proof {
        lemma_pow10_values();
    }
    let ghost base_n = total_nav_tokens as nat * pow10(8);
    let base: u64 = match total_nav_tokens.checked_mul(100_000_000u64) {
        Some(b) => b,
        None => {
            assert(base_n * allocation_percentage as nat > u64::MAX || allocation_percentage == 0)
                by (nonlinear_arith)
                requires
                    base_n > u64::MAX,
            ;
            if allocation_percentage == 0 {
                assert(base_n * 0 == 0);
                assert(0nat / 100 == 0);
                let unit = adjust_price_for_decimals(asset_price_usd, asset_decimals);
                if unit > 0 {
                    assert(0nat / unit as nat == 0);
                }
                assert(0nat * asset_price_usd as nat == 0);
                proof {
                    lemma_pow10_monotonic(0, asset_decimals as nat);
                    lemma_small_quotient(0, pow10(asset_decimals as nat));
                }
                return Ok(AllocationValue { amount: 0, value_usd: 0 });
            }
            return Err(Error::AllocationOverflow);
        },
    };
    let share: u64 = match base.checked_mul(allocation_percentage as u64) {
        Some(s) => s / 100,
        None => {
            return Err(Error::AllocationOverflow);
        },
    };
    let unit = adjust_price_for_decimals(asset_price_usd, asset_decimals);
    let amount: u64 = if unit > 0 {
        share / unit
    } else {
        0
    };
    let amount = scale_amount_to_decimals(amount, asset_decimals);
    match normalize_amount_to_usd(amount, asset_decimals, asset_price_usd) {
        Ok(value_usd) => Ok(AllocationValue { amount, value_usd }),
        Err(_) => Err(Error::AllocationOverflow),
    }
}

/// The allocation's amount and value for an asset with eight decimals.
pub fn calculate_allocation_value(total_nav_tokens: u64, allocation_percentage: u8, asset_price_usd: u64) -> (r:
    Result<AllocationValue, Error>)
    ensures
        r == allocation_value(total_nav_tokens, allocation_percentage, asset_price_usd, USD_DECIMALS),
{
    calculate_allocation_value_with_decimals(
        total_nav_tokens,
        allocation_percentage,
        asset_price_usd,
        USD_DECIMALS,
    )
}

/// A holding with the price and the decimals of its asset.
#[derive(Debug)]
pub struct PricedHolding {
    pub asset_id: AssetId,
    pub amount: u64,
    pub price_usd: u64,
    pub decimals: u8,
}

/// The value of one holding and its share of the bundle's value.
#[derive(Debug)]
pub struct AssetValue {
    pub asset_id: AssetId,
    pub amount: u64,
    pub value_usd: u64,
    /// The share of the bundle's value in basis points, truncated.
    pub share_bps: u64,
}

/// The value of a bundle and of one of its tokens.
#[derive(Debug)]
pub struct BundleNAV {
    pub bundle_id: u64,
    pub nav_per_token: u64,
    pub total_nav_usd: u64,
    pub total_tokens: u64,
    pub asset_values: Vec<AssetValue>,
    pub calculated_at: u64,
}

/// The sum of the values of the holdings, or the first error: a holding
/// whose value cannot be computed, or a sum that exceeds 64 bits.
pub open spec fn total_holdings_value(holdings: Seq<PricedHolding>) -> Result<u64, Error>
    decreases holdings.len(),
{
    if holdings.len() == 0 {
        Ok(0)
    } else {
        match total_holdings_value(holdings.drop_last()) {
            Err(e) => Err(e),
            Ok(sum) => match holding_value_usd(
                holdings.last().amount,
                holdings.last().price_usd,
                holdings.last().decimals,
            ) {
                Err(e) => Err(e),
                Ok(value) => if sum + value > u64::MAX {
                    Err(Error::ValueOverflow)
                } else {
                    Ok((sum + value) as u64)
                },
            },
        }
    }
}

/// An error among the first holdings is the error of all of them.
pub proof fn lemma_total_value_error_persists(holdings: Seq<PricedHolding>, n: int)
    requires
        0 <= n <= holdings.len(),
        total_holdings_value(holdings.take(n)) is Err,
    ensures
        total_holdings_value(holdings) == total_holdings_value(holdings.take(n)),
    decreases holdings.len() - n,
{
    if n < holdings.len() {
        assert(holdings.take(n + 1).drop_last() =~= holdings.take(n));
        lemma_total_value_error_persists(holdings, n + 1);
    } else {
        assert(holdings.take(n) =~= holdings);
    }
}

/// The share of `value` in `total` in basis points; zero for a total of
/// zero.
pub open spec fn share_in_bps(value: u64, total: u64) -> u64 {
    if total == 0 {
        0
    } else {
        saturated(value as nat * 10_000 / total as nat)
    }
}

/// A number as 64 bits, capped.
pub open spec fn saturated(n: nat) -> u64 {
    if n > u64::MAX {
        u64::MAX
    } else {
        n as u64
    }
}

/// The share of `value` in `total` in basis points.
pub fn share_bps(value: u64, total: u64) -> (r: u64)
    ensures
        r == share_in_bps(value, total),
{
    if total == 0 {
        return 0;
    }
    let share: u128 = value as u128 * 10_000u128 / total as u128;
    if share > u64::MAX as u128 {
        u64::MAX
    } else {
        share as u64
    }
}

/// The value of the holding at `i` as a report shows it.
pub open spec fn asset_value_at(holdings: Seq<PricedHolding>, total: u64, i: int) -> AssetValue {
    let value = holding_value_usd(holdings[i].amount, holdings[i].price_usd, holdings[i].decimals)->Ok_0;
    AssetValue {
        asset_id: holdings[i].asset_id,
        amount: holdings[i].amount,
        value_usd: value,
        share_bps: share_in_bps(value, total),
    }
}

/// Whether `nav` is the value of the bundle at `now`: without tokens
/// everything is zero; otherwise the total is the sum of the holding
/// values and the value per token is the total divided by the tokens.
pub open spec fn is_bundle_nav(nav: BundleNAV, bundle_id: u64, total_tokens: u64, holdings: Seq<PricedHolding>, now: u64) -> bool {
    &&& nav.bundle_id == bundle_id
    &&& nav.total_tokens == total_tokens
    &&& nav.calculated_at == now
    &&& if total_tokens == 0 {
        &&& nav.nav_per_token == 0
        &&& nav.total_nav_usd == 0
        &&& nav.asset_values@.len() == 0
    } else {
        &&& total_holdings_value(holdings) == Ok::<u64, Error>(nav.total_nav_usd)
        &&& nav_per_token(nav.total_nav_usd, total_tokens, USD_DECIMALS) == Ok::<u64, Error>(nav.nav_per_token)
        &&& nav.asset_values@.len() == holdings.len()
        &&& forall|i: int|
            0 <= i < holdings.len() ==> #[trigger] nav.asset_values@[i] == asset_value_at(
                holdings,
                nav.total_nav_usd,
                i,
            )
    }
}

/// What `calculate_bundle_nav` fails with, if it fails.
pub open spec fn bundle_nav_error(is_active: bool, total_tokens: u64, holdings: Seq<PricedHolding>) -> Option<Error> {
    if !is_active {
        Some(Error::BundleInactive)
    } else if total_tokens == 0 {
        None
    } else {
        match total_holdings_value(holdings) {
            Err(e) => Some(e),
            Ok(_) => None,
        }
    }
}

/// The value of an active bundle with `total_nav_tokens` tokens, from its
/// holdings and their prices.
pub fn calculate_bundle_nav(
    bundle_id: u64,
    is_active: bool,
    total_nav_tokens: u64,
    holdings: &Vec<PricedHolding>,
    now: u64,
) -> (r: Result<BundleNAV, Error>)
    ensures
        match r {
            Ok(nav) => bundle_nav_error(is_active, total_nav_tokens, holdings@) is None && is_bundle_nav(
                nav,
                bundle_id,
                total_nav_tokens,
                holdings@,
                now,
            ),
            Err(e) => bundle_nav_error(is_active, total_nav_tokens, holdings@) == Some(e),
        },
{
    if !is_active {
        return Err(Error::BundleInactive);
    }
    if total_nav_tokens == 0 {
        return Ok(
            BundleNAV {
                bundle_id,
                nav_per_token: 0,
                total_nav_usd: 0,
                total_tokens: 0,
                asset_values: Vec::new(),
                calculated_at: now,
            },
        );
    }
    let mut values: Vec<u64> = Vec::new();
    let mut total: u64 = 0;
    let mut i: usize = 0;
    assert(holdings@.take(0).len() == 0);
    while i < holdings.len()
        invariant
            i <= holdings.len(),
            is_active,
            total_nav_tokens != 0,
            total_holdings_value(holdings@.take(i as int)) == Ok::<u64, Error>(total),
            values@.len() == i,
            forall|k: int|
                0 <= k < i ==> holding_value_usd(
                    holdings@[k].amount,
                    holdings@[k].price_usd,
                    holdings@[k].decimals,
                ) == Ok::<u64, Error>(#[trigger] values@[k]),
        decreases holdings.len() - i,
    {
        assert(holdings@.take(i + 1).drop_last() =~= holdings@.take(i as int));
        let h = &holdings[i];
        let value = match calculate_holding_value_usd(h.amount, h.price_usd, h.decimals) {
            Ok(v) => v,
            Err(e) => {
                proof {
                    lemma_total_value_error_persists(holdings@, i + 1);
                }
                return Err(e);
            },
        };
        total = match total.checked_add(value) {
            Some(t) => t,
            None => {
                proof {
                    lemma_total_value_error_persists(holdings@, i + 1);
                }
                return Err(Error::ValueOverflow);
            },
        };
        values.push(value);
        i += 1;
    }
    assert(holdings@.take(i as int) =~= holdings@);
    let mut asset_values: Vec<AssetValue> = Vec::new();
    let mut j: usize = 0;
    while j < holdings.len()
        invariant
            j <= holdings.len(),
            values@.len() == holdings@.len(),
            asset_values@.len() == j,
            forall|k: int|
                0 <= k < holdings@.len() ==> holding_value_usd(
                    holdings@[k].amount,
                    holdings@[k].price_usd,
                    holdings@[k].decimals,
                ) == Ok::<u64, Error>(#[trigger] values@[k]),
            forall|k: int| 0 <= k < j ==> #[trigger] asset_values@[k] == asset_value_at(holdings@, total, k),
        decreases holdings.len() - j,
    {
        let h = &holdings[j];
        asset_values.push(
            AssetValue {
                asset_id: h.asset_id.clone(),
                amount: h.amount,
                value_usd: values[j],
                share_bps: share_bps(values[j], total),
            },
        );
        j += 1;
    }
    let nav_per_token = match calculate_nav_per_token_with_supply_validation(total, total_nav_tokens, USD_DECIMALS) {
        Ok(v) => v,
        Err(e) => {
            proof {
                lemma_pow10_values();
                assert(pow10(0) == 1);
            }
            return Err(e);
        },
    };
    Ok(
        BundleNAV {
            bundle_id,
            nav_per_token,
            total_nav_usd: total,
            total_tokens: total_nav_tokens,
            asset_values,
            calculated_at: now,
        },
    )
}

/// A bundle token's recorded supply against the supply summed over its
/// holders.
pub fn validate_total_supply_consistency(bundle_id: u64, recorded_total: u64, calculated_total: u64, now: u64) -> (r:
    SupplyValidationResult)
    ensures
        r == (SupplyValidationResult {
            bundle_id,
            recorded_total_supply: recorded_total,
            calculated_total_supply: calculated_total,
            is_consistent: recorded_total == calculated_total,
            discrepancy: if recorded_total > calculated_total {
                (recorded_total - calculated_total) as u64
            } else {
                (calculated_total - recorded_total) as u64
            },
            validation_timestamp: now,
        }),
{
    SupplyValidationResult {
        bundle_id,
        recorded_total_supply: recorded_total,
        calculated_total_supply: calculated_total,
        is_consistent: recorded_total == calculated_total,
        discrepancy: if recorded_total > calculated_total {
            recorded_total - calculated_total
        } else {
            calculated_total - recorded_total
        },
        validation_timestamp: now,
    }
}

/// The sum of the holders' bundle tokens of one bundle.
pub open spec fn supply_from_holders(tokens: Seq<XFusionNAVToken>, bundle_id: u64) -> nat
    decreases tokens.len(),
{
    if tokens.len() == 0 {
        0
    } else {
        supply_from_holders(tokens.drop_last(), bundle_id) + if tokens.last().bundle_id == bundle_id {
            tokens.last().amount as nat
        } else {
            0
        }
    }
}

/// The sum of the holders' bundle tokens of one bundle, capped at 64 bits.
pub fn calculate_total_supply_from_holders(tokens: &Vec<XFusionNAVToken>, bundle_id: u64) -> (r: u64)
    ensures
        r == saturated(supply_from_holders(tokens@, bundle_id)),
{
    let mut sum: u64 = 0;
    let mut i: usize = 0;
    while i < tokens.len()
        invariant
            i <= tokens.len(),
            sum == saturated(supply_from_holders(tokens@.take(i as int), bundle_id)),
        decreases tokens.len() - i,
    {
        assert(tokens@.take(i + 1).drop_last() =~= tokens@.take(i as int));
        if tokens[i].bundle_id == bundle_id {
            sum = sum.saturating_add(tokens[i].amount);
        }
        i += 1;
    }
    assert(tokens@.take(i as int) =~= tokens@);
    sum
}

/// A user's bundle tokens of one bundle with the value of one token.
#[derive(Clone, Copy, Debug, PartialEq, Eq, Structural)]
pub struct ValuedPosition {
    pub amount: u64,
    pub nav_per_token: u64,
}

/// The sum of `amount * nav_per_token` over the positions, or the first
/// overflow of 64 bits.
pub open spec fn portfolio_value(positions: Seq<ValuedPosition>) -> Result<u64, Error>
    decreases positions.len(),
{
    if positions.len() == 0 {
        Ok(0)
    } else {
        match portfolio_value(positions.drop_last()) {
            Err(e) => Err(e),
            Ok(sum) => if positions.last().amount as nat * positions.last().nav_per_token as nat > u64::MAX
                || sum + positions.last().amount as nat * positions.last().nav_per_token as nat > u64::MAX {
                Err(Error::ValueOverflow)
            } else {
                Ok((sum + positions.last().amount as nat * positions.last().nav_per_token as nat) as u64)
            },
        }
    }
}

/// An overflow among the first positions is the overflow of all of them.
pub proof fn lemma_portfolio_error_persists(positions: Seq<ValuedPosition>, n: int)
    requires
        0 <= n <= positions.len(),
        portfolio_value(positions.take(n)) is Err,
    ensures
        portfolio_value(positions) == portfolio_value(positions.take(n)),
    decreases positions.len() - n,
{
    if n < positions.len() {
        assert(positions.take(n + 1).drop_last() =~= positions.take(n));
        lemma_portfolio_error_persists(positions, n + 1);
    } else {
        assert(positions.take(n) =~= positions);
    }
}

/// The value of a user's positions, with 64-bit checked arithmetic.
pub fn get_portfolio_value(positions: &Vec<ValuedPosition>) -> (r: Result<u64, Error>)
    ensures
        r == portfolio_value(positions@),
{
    let mut total: u64 = 0;
    let mut i: usize = 0;
    assert(positions@.take(0).len() == 0);
    while i < positions.len()
        invariant
            i <= positions.len(),
            portfolio_value(positions@.take(i as int)) == Ok::<u64, Error>(total),
        decreases positions.len() - i,
    {
        assert(positions@.take(i + 1).drop_last() =~= positions@.take(i as int));
        let value = match positions[i].amount.checked_mul(positions[i].nav_per_token) {
            Some(v) => v,
            None => {
                proof {
                    lemma_portfolio_error_persists(positions@, i + 1);
                }
                return Err(Error::ValueOverflow);
            },
        };
        total = match total.checked_add(value) {
            Some(t) => t,
            None => {
                proof {
                    lemma_portfolio_error_persists(positions@, i + 1);
                }
                return Err(Error::ValueOverflow);
            },
        };
        i += 1;
    }
    assert(positions@.take(i as int) =~= positions@);
    Ok(total)
}

/// An allocation with the price and the decimals of its asset; no price
/// where none could be had.
#[derive(Clone, Copy, Debug, PartialEq, Eq)]
pub struct PricedAllocation {
    pub percentage: u8,
    pub price: Option<(u64, u8)>,
}

/// The sum of the allocation values, capped at 64 bits; an allocation
/// without a price, or whose value cannot be computed, counts as zero.
pub open spec fn allocations_value(total_tokens: u64, allocations: Seq<PricedAllocation>) -> nat
    decreases allocations.len(),
{
    if allocations.len() == 0 {
        0
    } else {
        allocations_value(total_tokens, allocations.drop_last()) + match allocations.last().price {
            Some((price, decimals)) => match allocation_value(
                total_tokens,
                allocations.last().percentage,
                price,
                decimals,
            ) {
                Ok(v) => v.value_usd as nat,
                Err(_) => 0,
            },
            None => 0,
        }
    }
}

/// Whether `report` is the precision report of a bundle at `now`: the
/// value per token at eight and at eighteen decimals, what the eight
/// decimals lose, and the display at eight decimals.
pub open spec fn is_precision_report(
    report: NAVPrecisionReport,
    bundle_id: u64,
    total_tokens: u64,
    allocations: Seq<PricedAllocation>,
    now: u64,
) -> bool {
    let total = if total_tokens == 0 {
        0
    } else {
        saturated(allocations_value(total_tokens, allocations))
    };
    let nav8 = nav_per_token(total, total_tokens, 8)->Ok_0;
    let nav18 = nav_per_token(total, total_tokens, 18)->Ok_0;
    let scaled = saturated(nav8 as nat * pow10(10));
    &&& report.bundle_id == bundle_id
    &&& report.total_usd_value == total
    &&& report.total_tokens == total_tokens
    &&& report.nav_per_token_8_decimals == nav8
    &&& report.nav_per_token_18_decimals == nav18
    &&& report.formatted_nav_display@ == formatted_nav(nav8, 8)
    &&& report.precision_loss_amount == if nav18 > scaled {
        (nav18 - scaled) as u64
    } else {
        0
    }
    &&& report.calculation_timestamp == now
}

/// The precision report of a bundle with `total_tokens` tokens. Fails
/// where the value per token cannot be computed at eighteen decimals.
pub fn calculate_nav_with_full_precision_report(
    bundle_id: u64,
    total_tokens: u64,
    allocations: &Vec<PricedAllocation>,
    now: u64,
) -> (r: Result<NAVPrecisionReport, Error>)
    ensures
        match r {
            Ok(report) => is_precision_report(report, bundle_id, total_tokens, allocations@, now),
            Err(e) => total_tokens != 0 && nav_per_token(
                saturated(allocations_value(total_tokens, allocations@)),
                total_tokens,
                18,
            ) == Err::<u64, Error>(e),
        },
{
    proof {
        lemma_pow10_values();
        assert(pow10(0) == 1);
        assert(pow10(10) == 10_000_000_000) by {
            reveal_with_fuel(pow10, 11);
        }
    }
    if total_tokens == 0 {
        return Ok(
            NAVPrecisionReport {
                bundle_id,
                total_usd_value: 0,
                total_tokens: 0,
                nav_per_token_8_decimals: 0,
                nav_per_token_18_decimals: 0,
                formatted_nav_display: format_nav_with_precision(0, 8),
                precision_loss_amount: 0,
                calculation_timestamp: now,
            },
        );
    }
    let mut total: u64 = 0;
    let mut i: usize = 0;
    while i < allocations.len()
        invariant
            i <= allocations.len(),
            total == saturated(allocations_value(total_tokens, allocations@.take(i as int))),
        decreases allocations.len() - i,
    {
        assert(allocations@.take(i + 1).drop_last() =~= allocations@.take(i as int));
        match allocations[i].price {
            Some((price, decimals)) => {
                match calculate_allocation_value_with_decimals(
                    total_tokens,
                    allocations[i].percentage,
                    price,
                    decimals,
                ) {
                    Ok(v) => {
                        total = total.saturating_add(v.value_usd);
                    },
                    Err(_) => {},
                }
            },
            None => {},
        }
        i += 1;
    }
    assert(allocations@.take(i as int) =~= allocations@);
    let nav8 = match calculate_nav_per_token_with_supply_validation(total, total_tokens, 8) {
        Ok(v) => v,
        Err(e) => {
            return Err(e);
        },
    };
    let nav18 = match calculate_nav_per_token_with_supply_validation(total, total_tokens, 18) {
        Ok(v) => v,
        Err(e) => {
            return Err(e);
        },
    };
    let scaled: u64 = match nav8.checked_mul(10_000_000_000u64) {
        Some(v) => v,
        None => u64::MAX,
    };
    Ok(
        NAVPrecisionReport {
            bundle_id,
            total_usd_value: total,
            total_tokens,
            nav_per_token_8_decimals: nav8,
            nav_per_token_18_decimals: nav18,
            formatted_nav_display: format_nav_with_precision(nav8, 8),
            precision_loss_amount: if nav18 > scaled {
                nav18 - scaled
            } else {
                0
            },
            calculation_timestamp: now,
        },
    )
}

} // verus!
