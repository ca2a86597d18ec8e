//! The cache of USD prices. A price is served from the cache while it is
//! younger than the cache duration; an older one is fetched anew by the
//! caller and recorded here.

use vstd::prelude::*;
use vstd::string::StringExecFns;
use crate::admin::{admin_is, is_admin};
use crate::asset_registry::{asset_of, has_asset, AssetRegistry};
use crate::error::Error;
use crate::memory::GlobalState;
use crate::nav_calculator::{pow10, pow10_checked, saturated, lemma_pow10_monotonic, lemma_small_quotient};
use crate::principal::PrincipalId;
use crate::transaction_manager::capped_count;
use crate::types::{AssetId, AssetInfo, AssetPrice};

verus! {

/// How long a price is served from the cache, in nanoseconds, where no
/// other duration is configured: a minute.
pub const DEFAULT_CACHE_DURATION_NS: u64 = 60_000_000_000;

/// How old a price may be before it counts as stale, in nanoseconds, where
/// no other age is given: five minutes.
pub const DEFAULT_MAX_STALENESS_NS: u64 = 300_000_000_000;

/// The confidence that is recorded with a fetched price, in percent.
pub const FETCHED_PRICE_CONFIDENCE: u8 = 95;

/// Where prices come from and how long they are kept.
#[derive(Clone, Copy, Debug)]
pub struct OracleConfig {
    pub oracle_canister: PrincipalId,
    pub cache_duration_ns: u64,
    pub max_staleness_ns: u64,
    pub fallback_enabled: bool,
}

/// A price as the oracle reports it.
#[derive(Clone, Debug)]
pub struct OraclePrice {
    pub value: u64,
    pub confidence: Option<u64>,
    pub timestamp: u64,
    pub source: String,
}

/// Counts over the cache.
#[derive(Clone, Copy, Debug, PartialEq, Eq, Structural)]
pub struct CacheStatistics {
    pub total_entries: u32,
    pub valid_entries: u32,
    pub expired_entries: u32,
    pub oldest_entry_age_seconds: u64,
    pub cache_duration_seconds: u64,
}

/// What to do for the latest price of an asset.
#[derive(Debug)]
pub enum PriceLookup {
    /// The cache holds a price that is young enough.
    Cached { price_usd: u64, timestamp: u64 },
    /// The price is to be fetched for this oracle ticker.
    Fetch { ticker: String },
}

/// The age of a price at `now`; zero for a price from the future.
pub open spec fn price_age(price: AssetPrice, now: u64) -> u64 {
    if now >= price.timestamp {
        (now - price.timestamp) as u64
    } else {
        0
    }
}

/// Whether a price for this asset is among `prices`.
pub open spec fn has_price(prices: Seq<AssetPrice>, asset_id: Seq<char>) -> bool {
    exists|i: int| 0 <= i < prices.len() && (#[trigger] prices[i]).asset_id@ == asset_id
}

/// The price for this asset among `prices`.
pub open spec fn price_of(prices: Seq<AssetPrice>, asset_id: Seq<char>) -> AssetPrice
    recommends
        has_price(prices, asset_id),
{
    prices[choose|i: int| 0 <= i < prices.len() && (#[trigger] prices[i]).asset_id@ == asset_id]
}

/// No asset has two prices.
pub open spec fn distinct_prices(prices: Seq<AssetPrice>) -> bool {
    forall|i: int, j: int|
        0 <= i < j < prices.len() ==> (#[trigger] prices[i]).asset_id@ != (#[trigger] prices[j]).asset_id@
}

/// With one price for each asset, the price found for an asset is the one
/// at any index that holds the asset.
pub proof fn lemma_price_at(prices: Seq<AssetPrice>, i: int)
    requires
        distinct_prices(prices),
        0 <= i < prices.len(),
    ensures
        has_price(prices, prices[i].asset_id@),
        price_of(prices, prices[i].asset_id@) == prices[i],
{
    let c = choose|k: int| 0 <= k < prices.len() && (#[trigger] prices[k]).asset_id@ == prices[i].asset_id@;
    if c < i {
        assert(prices[c].asset_id@ != prices[i].asset_id@);
    } else if i < c {
        assert(prices[i].asset_id@ != prices[c].asset_id@);
    }
}

/// The cached prices and the oracle's configuration.
pub struct PriceCache {
    prices: Vec<AssetPrice>,
    config: Option<OracleConfig>,
}

impl PriceCache {
    /// The cached prices, in the order in which their assets were first
    /// priced.
    pub closed spec fn view(&self) -> Seq<AssetPrice> {
        self.prices@
    }

    /// The configuration, if one is set.
    pub closed spec fn config(&self) -> Option<OracleConfig> {
        self.config
    }

    /// No asset has two prices.
    pub open spec fn wf(&self) -> bool {
        distinct_prices(self@)
    }

    /// How long a price is served from the cache.
    pub open spec fn cache_duration(&self) -> u64 {
        match self.config() {
            Some(c) => c.cache_duration_ns,
            None => DEFAULT_CACHE_DURATION_NS,
        }
    }

    /// An empty cache without configuration.
    pub fn new() -> (r: PriceCache)
        ensures
            r.wf(),
            r@ == Seq::<AssetPrice>::empty(),
            r.config() is None,
    {
        PriceCache { prices: Vec::new(), config: None }
    }

    /// Sets the configuration. Only the administrator may.
    pub fn set_oracle_config(&mut self, state: &GlobalState, caller: &PrincipalId, config: OracleConfig) -> (r:
        Result<(), Error>)
        ensures
            final(self)@ == old(self)@,
            admin_is(*state, *caller) ==> r == Ok::<(), Error>(()) && final(self).config() == Some(config),
            !admin_is(*state, *caller) ==> r == Err::<(), Error>(Error::NotAdmin) && final(self).config() == old(
                self,
            ).config(),
    {
        if !is_admin(state, caller) {
            return Err(Error::NotAdmin);
        }
        self.config = Some(config);
        Ok(())
    }

    /// The configuration, if one is set.
    pub fn get_oracle_config(&self) -> (r: Option<OracleConfig>)
        ensures
            r == self.config(),
    {
        self.config
    }

    fn duration(&self) -> (d: u64)
        ensures
            d == self.cache_duration(),
    {
        match self.config {
            Some(c) => c.cache_duration_ns,
            None => DEFAULT_CACHE_DURATION_NS,
        }
    }

    fn position(&self, asset_id: &AssetId) -> (r: Option<usize>)
        requires
            self.wf(),
        ensures
            r is Some <==> has_price(self@, asset_id@),
            r matches Some(i) ==> i < self@.len() && self@[i as int].asset_id@ == asset_id@ && self@[i as int]
                == price_of(self@, asset_id@),
    {
        let mut i: usize = 0;
        while i < self.prices.len()
            invariant
                self.wf(),
                i <= self.prices.len(),
                forall|k: int| 0 <= k < i ==> (#[trigger] self.prices@[k]).asset_id@ != asset_id@,
            decreases self.prices.len() - i,
        {
            if self.prices[i].asset_id == *asset_id {
                proof {
                    lemma_price_at(self.prices@, i as int);
                }
                return Some(i);
            }
            i += 1;
        }
        None
    }

    /// The cached price of an asset, however old.
    pub fn get_cached_price(&self, asset_id: &AssetId) -> (r: Option<&AssetPrice>)
        requires
            self.wf(),
        ensures
            match r {
                Some(price) => has_price(self@, asset_id@) && *price == price_of(self@, asset_id@),
                None => !has_price(self@, asset_id@),
            },
    {
        match self.position(asset_id) {
            Some(i) => Some(&self.prices[i]),
            None => None,
        }
    }

    /// The cached price of an asset, where it is younger than the cache
    /// duration at `now`.
    pub fn get_cached_price_if_valid(&self, asset_id: &AssetId, now: u64) -> (r: Option<&AssetPrice>)
        requires
            self.wf(),
        ensures
            match r {
                Some(price) => has_price(self@, asset_id@) && *price == price_of(self@, asset_id@) && price_age(
                    *price,
                    now,
                ) < self.cache_duration(),
                None => !has_price(self@, asset_id@) || price_age(price_of(self@, asset_id@), now)
                    >= self.cache_duration(),
            },
    {
        match self.position(asset_id) {
            Some(i) => {
                let age = now.saturating_sub(self.prices[i].timestamp);
                if age < self.duration() {
                    Some(&self.prices[i])
                } else {
                    None
                }
            },
            None => None,
        }
    }

    /// Whether the price of an asset is missing or older than
    /// `max_staleness`, five minutes where none is given.
    pub fn is_price_stale(&self, asset_id: &AssetId, max_staleness: Option<u64>, now: u64) -> (r: bool)
        requires
            self.wf(),
        ensures
            r == (!has_price(self@, asset_id@) || price_age(price_of(self@, asset_id@), now) > match max_staleness {
                Some(m) => m,
                None => DEFAULT_MAX_STALENESS_NS,
            }),
    {
        let limit = match max_staleness {
            Some(m) => m,
            None => DEFAULT_MAX_STALENESS_NS,
        };
        match self.position(asset_id) {
            Some(i) => now.saturating_sub(self.prices[i].timestamp) > limit,
            None => true,
        }
    }

    /// Records a price that was fetched at `now` in place of any cached
    /// price of the asset.
    pub fn record_price(&mut self, asset_id: &AssetId, price_usd: u64, now: u64)
        requires
            old(self).wf(),
        ensures
            final(self).wf(),
            final(self).config() == old(self).config(),
            has_price(final(self)@, asset_id@),
            is_fetched_price(price_of(final(self)@, asset_id@), asset_id@, price_usd, now),
            forall|other: Seq<char>|
                other != asset_id@ ==> (#[trigger] has_price(final(self)@, other)) == has_price(old(self)@, other),
            forall|other: Seq<char>|
                other != asset_id@ && has_price(old(self)@, other) ==> #[trigger] price_of(final(self)@, other)
                    == price_of(old(self)@, other),
    {
        let ghost before = self.prices@;
        let price = AssetPrice {
            asset_id: asset_id.clone(),
            price_usd,
            timestamp: now,
            source: String::from_str("xfusion_oracle"),
            confidence: FETCHED_PRICE_CONFIDENCE,
        };
        match self.position(asset_id) {
            Some(i) => {
                self.prices[i] = price;
                proof {
                    let after = self.prices@;
                    assert forall|a: int, b: int| 0 <= a < b < after.len() implies (#[trigger] after[a]).asset_id@
                        != (#[trigger] after[b]).asset_id@ by {
                        assert(after[a].asset_id@ == before[a].asset_id@);
                        assert(after[b].asset_id@ == before[b].asset_id@);
                    }
                    lemma_price_at(after, i as int);
                }
            },
            None => {
                self.prices.push(price);
                proof {
                    let after = self.prices@;
                    assert forall|a: int, b: int| 0 <= a < b < after.len() implies (#[trigger] after[a]).asset_id@
                        != (#[trigger] after[b]).asset_id@ by {
                        if b == before.len() {
                            assert(after[a] == before[a]);
                        } else {
                            assert(after[a] == before[a] && after[b] == before[b]);
                        }
                    }
                    lemma_price_at(after, before.len() as int);
                }
            },
        }
        proof {
            let after = self.prices@;
            assert forall|other: Seq<char>| other != asset_id@ implies (#[trigger] has_price(after, other))
                == has_price(before, other) by {
                lemma_other_price(before, after, asset_id@, other);
            }
            assert forall|other: Seq<char>| other != asset_id@ && has_price(before, other) implies #[trigger] price_of(
                after,
                other,
            ) == price_of(before, other) by {
                lemma_other_price(before, after, asset_id@, other);
            }
        }
    }

    /// The assets whose cached price is older than the cache duration at
    /// `now`.
    pub fn refresh_expired_prices(&self, now: u64) -> (out: Vec<AssetId>)
        ensures
            out@.len() == self@.filter(|p: AssetPrice| price_age(p, now) > self.cache_duration()).len(),
            forall|i: int|
                0 <= i < out@.len() ==> (#[trigger] out@[i])@ == self@.filter(
                    |p: AssetPrice| price_age(p, now) > self.cache_duration(),
                )[i].asset_id@,
    {
        let duration = self.duration();
        let ghost old_enough = |p: AssetPrice| price_age(p, now) > self.cache_duration();
        let ghost all = self.prices@;
        let mut out: Vec<AssetId> = Vec::new();
        let mut i: usize = 0;
        proof {
            reveal(Seq::filter);
            assert(all.take(0).filter(old_enough) =~= Seq::<AssetPrice>::empty());
        }
        while i < self.prices.len()
            invariant
                i <= self.prices.len(),
                all == self.prices@,
                duration == self.cache_duration(),
                old_enough == (|p: AssetPrice| price_age(p, now) > self.cache_duration()),
                out@.len() == all.take(i as int).filter(old_enough).len(),
                forall|k: int|
                    0 <= k < out@.len() ==> (#[trigger] out@[k])@ == all.take(i as int).filter(
                        old_enough,
                    )[k].asset_id@,
            decreases self.prices.len() - i,
        {
            proof {
                assert(all.take(i + 1) =~= all.take(i as int).push(all[i as int]));
                all.take(i as int).lemma_filter_push(all[i as int], old_enough);
            }
            if now.saturating_sub(self.prices[i].timestamp) > duration {
                out.push(self.prices[i].asset_id.clone());
            }
            i += 1;
        }
        assert(all.take(i as int) =~= all);
        out
    }

    /// Counts the cached prices that are younger than the cache duration
    /// at `now`, and those that are not, and finds the age of the oldest.
    pub fn get_cache_statistics(&self, now: u64) -> (stats: CacheStatistics)
        ensures
            stats.total_entries == capped_count(self@.len() as int),
            stats.valid_entries == capped_count(
                self@.filter(|p: AssetPrice| price_age(p, now) < self.cache_duration()).len() as int,
            ),
            stats.expired_entries == capped_count(
                self@.len() - self@.filter(|p: AssetPrice| price_age(p, now) < self.cache_duration()).len(),
            ),
            stats.oldest_entry_age_seconds == oldest_age(self@, now) / 1_000_000_000,
            stats.cache_duration_seconds == self.cache_duration() / 1_000_000_000,
    {
        let duration = self.duration();
        let ghost valid = |p: AssetPrice| price_age(p, now) < self.cache_duration();
        let ghost all = self.prices@;
        let mut young: usize = 0;
        let mut oldest: u64 = 0;
        let mut i: usize = 0;
        proof {
            reveal(Seq::filter);
            assert(all.take(0).filter(valid) =~= Seq::<AssetPrice>::empty());
        }
        while i < self.prices.len()
            invariant
                i <= self.prices.len(),
                all == self.prices@,
                duration == self.cache_duration(),
                valid == (|p: AssetPrice| price_age(p, now) < self.cache_duration()),
                young == all.take(i as int).filter(valid).len(),
                young <= i,
                oldest == oldest_age(all.take(i as int), now),
            decreases self.prices.len() - i,
        {
            proof {
                assert(all.take(i + 1) =~= all.take(i as int).push(all[i as int]));
                all.take(i as int).lemma_filter_push(all[i as int], valid);
                assert(all.take(i + 1).drop_last() =~= all.take(i as int));
            }
            let age = now.saturating_sub(self.prices[i].timestamp);
            if age < duration {
                young += 1;
            }
            if age > oldest {
                oldest = age;
            }
            i += 1;
        }
        assert(all.take(i as int) =~= all);
        let total = self.prices.len();
        let expired = total - young;
        CacheStatistics {
            total_entries: if total > 0xFFFF_FFFFusize {
                0xFFFF_FFFFu32
            } else {
                total as u32
            },
            valid_entries: if young > 0xFFFF_FFFFusize {
                0xFFFF_FFFFu32
            } else {
                young as u32
            },
            expired_entries: if expired > 0xFFFF_FFFFusize {
                0xFFFF_FFFFu32
            } else {
                expired as u32
            },
            oldest_entry_age_seconds: oldest / 1_000_000_000,
            cache_duration_seconds: duration / 1_000_000_000,
        }
    }

    /// Empties the cache and returns how many prices it held. Only the
    /// administrator may.
    pub fn clear_price_cache(&mut self, state: &GlobalState, caller: &PrincipalId) -> (r: Result<u32, Error>)
        requires
            old(self).wf(),
        ensures
            final(self).wf(),
            final(self).config() == old(self).config(),
            admin_is(*state, *caller) ==> r == Ok::<u32, Error>(capped_count(old(self)@.len() as int)) && final(self)@ == Seq::<AssetPrice>::empty(),
            !admin_is(*state, *caller) ==> r == Err::<u32, Error>(Error::NotAdmin) && final(self)@ == old(self)@,
    {
        if !is_admin(state, caller) {
            return Err(Error::NotAdmin);
        }
        let n = self.prices.len();
        self.prices = Vec::new();
        Ok(
            if n > 0xFFFF_FFFFusize {
                0xFFFF_FFFFu32
            } else {
                n as u32
            },
        )
    }
}

/// The age of the oldest price at `now`; zero for no prices.
pub open spec fn oldest_age(prices: Seq<AssetPrice>, now: u64) -> u64
    decreases prices.len(),
{
    if prices.len() == 0 {
        0
    } else if price_age(prices.last(), now) > oldest_age(prices.drop_last(), now) {
        price_age(prices.last(), now)
    } else {
        oldest_age(prices.drop_last(), now)
    }
}

/// Whether `price` is what is recorded for a price fetched at `now`.
pub open spec fn is_fetched_price(price: AssetPrice, asset_id: Seq<char>, price_usd: u64, now: u64) -> bool {
    &&& price.asset_id@ == asset_id
    &&& price.price_usd == price_usd
    &&& price.timestamp == now
    &&& price.source@ == "xfusion_oracle"@
    &&& price.confidence == FETCHED_PRICE_CONFIDENCE
}

/// Recording a price for `key`, by replacing or by appending, leaves the
/// lookup of every other asset as it was.
pub proof fn lemma_other_price(before: Seq<AssetPrice>, after: Seq<AssetPrice>, key: Seq<char>, other: Seq<char>)
    requires
        distinct_prices(before),
        distinct_prices(after),
        other != key,
        before.len() <= after.len() <= before.len() + 1,
        forall|k: int| 0 <= k < before.len() && (#[trigger] before[k]).asset_id@ != key ==> after[k] == before[k],
        forall|k: int|
            0 <= k < after.len() && (#[trigger] after[k]).asset_id@ != key ==> k < before.len() && after[k]
                == before[k],
    ensures
        has_price(after, other) == has_price(before, other),
        has_price(before, other) ==> price_of(after, other) == price_of(before, other),
{
    if has_price(before, other) {
        let k = choose|k: int| 0 <= k < before.len() && (#[trigger] before[k]).asset_id@ == other;
        assert(after[k] == before[k]);
        lemma_price_at(after, k);
        lemma_price_at(before, k);
    }
    if has_price(after, other) {
        let k = choose|k: int| 0 <= k < after.len() && (#[trigger] after[k]).asset_id@ == other;
        assert(after[k] == before[k]);
    }
}

/// What to do for the latest price of an asset at `now`: serve the cached
/// price while it is younger than the cache duration; otherwise fetch the
/// price for the asset's oracle ticker. Fails for an asset that is not
/// registered or has no ticker.
pub fn get_latest_price(cache: &PriceCache, registry: &AssetRegistry, asset_id: &AssetId, now: u64) -> (r: Result<
    PriceLookup,
    Error,
>)
    requires
        cache.wf(),
        registry.wf(),
    ensures
        match r {
            Ok(PriceLookup::Cached { price_usd, timestamp }) => has_price(cache@, asset_id@) && price_age(
                price_of(cache@, asset_id@),
                now,
            ) < cache.cache_duration() && price_usd == price_of(cache@, asset_id@).price_usd && timestamp
                == price_of(cache@, asset_id@).timestamp,
            Ok(PriceLookup::Fetch { ticker }) => needs_fetch(cache@, cache.cache_duration(), asset_id@, now)
                && has_asset(registry@, asset_id@) && asset_of(registry@, asset_id@).oracle_ticker is Some
                && asset_of(registry@, asset_id@).oracle_ticker->Some_0@ == ticker@,
            Err(e) => needs_fetch(cache@, cache.cache_duration(), asset_id@, now) && if has_asset(
                registry@,
                asset_id@,
            ) {
                asset_of(registry@, asset_id@).oracle_ticker is None && e == (Error::NoOracleTicker {
                    asset_id: *asset_id,
                })
            } else {
                e == (Error::AssetNotFound { asset_id: *asset_id })
            },
        },
{
    match cache.get_cached_price_if_valid(asset_id, now) {
        Some(price) => {
            return Ok(PriceLookup::Cached { price_usd: price.price_usd, timestamp: price.timestamp });
        },
        None => {},
    }
    let asset = match registry.get_asset(asset_id) {
        Ok(a) => a,
        Err(e) => {
            return Err(e);
        },
    };
    match &asset.oracle_ticker {
        Some(ticker) => Ok(PriceLookup::Fetch { ticker: ticker.clone() }),
        None => Err(Error::NoOracleTicker { asset_id: asset_id.clone() }),
    }
}

/// Whether the cache cannot serve the price of an asset at `now`.
pub open spec fn needs_fetch(prices: Seq<AssetPrice>, duration: u64, asset_id: Seq<char>, now: u64) -> bool {
    !has_price(prices, asset_id) || price_age(price_of(prices, asset_id), now) >= duration
}

/// A price in USD with eight decimals as a price per base unit of an
/// asset with `decimals` decimals: divided, with truncation, for more than
/// eight decimals; multiplied for fewer, and capped at 64 bits.
pub open spec fn price_per_base_unit(price_usd: u64, decimals: u8) -> u64 {
    if decimals >= 8 {
        (price_usd as nat / pow10((decimals - 8) as nat)) as u64
    } else {
        saturated(price_usd as nat * pow10((8 - decimals) as nat))
    }
}

/// Rescales a USD price to the base units of an asset.
pub fn adjust_price_for_decimals(price_usd: u64, decimals: u8) -> (r: u64)
    ensures
        r == price_per_base_unit(price_usd, decimals),
{
    if decimals >= 8 {
        proof {
            lemma_pow10_monotonic(0, (decimals - 8) as nat);
        }
        match pow10_checked(decimals - 8) {
            Some(scale) => price_usd / scale,
            None => {
                proof {
                    lemma_small_quotient(price_usd as nat, pow10((decimals - 8) as nat));
                }
                0
            },
        }
    } else {
        match pow10_checked(8 - decimals) {
            Some(scale) => match price_usd.checked_mul(scale) {
                Some(v) => v,
                None => u64::MAX,
            },
            None => {
                proof {
                    crate::nav_calculator::lemma_pow10_values();
                    lemma_pow10_monotonic((8 - decimals) as nat, 8);
                }
                u64::MAX
            },
        }
    }
}

/// Whether `out` holds exactly the prices of `kept`, in their order.
pub open spec fn lists_prices(out: Seq<&AssetPrice>, kept: Seq<AssetPrice>) -> bool {
    out.len() == kept.len() && forall|i: int| 0 <= i < out.len() ==> *(#[trigger] out[i]) == kept[i]
}

impl PriceCache {
    /// All cached prices, however old.
    pub fn list_cached_prices(&self) -> (out: Vec<&AssetPrice>)
        ensures
            lists_prices(out@, self@),
    {
        let mut out: Vec<&AssetPrice> = Vec::new();
        let mut i: usize = 0;
        while i < self.prices.len()
            invariant
                i <= self.prices.len(),
                lists_prices(out@, self.prices@.take(i as int)),
            decreases self.prices.len() - i,
        {
            out.push(&self.prices[i]);
            i += 1;
        }
        assert(self.prices@.take(i as int) =~= self.prices@);
        out
    }

    /// The cached prices that are younger than the cache duration at
    /// `now`.
    pub fn list_valid_cached_prices(&self, now: u64) -> (out: Vec<&AssetPrice>)
        ensures
            lists_prices(out@, self@.filter(|p: AssetPrice| price_age(p, now) < self.cache_duration())),
    {
        let duration = self.duration();
        let ghost valid = |p: AssetPrice| price_age(p, now) < self.cache_duration();
        let ghost all = self.prices@;
        let mut out: Vec<&AssetPrice> = Vec::new();
        let mut i: usize = 0;
        proof {
            reveal(Seq::filter);
            assert(all.take(0).filter(valid) =~= Seq::<AssetPrice>::empty());
        }
        while i < self.prices.len()
            invariant
                i <= self.prices.len(),
                all == self.prices@,
                duration == self.cache_duration(),
                valid == (|p: AssetPrice| price_age(p, now) < self.cache_duration()),
                lists_prices(out@, all.take(i as int).filter(valid)),
            decreases self.prices.len() - i,
        {
            proof {
                assert(all.take(i + 1) =~= all.take(i as int).push(all[i as int]));
                all.take(i as int).lemma_filter_push(all[i as int], valid);
            }
            if now.saturating_sub(self.prices[i].timestamp) < duration {
                out.push(&self.prices[i]);
            }
            i += 1;
        }
        assert(all.take(i as int) =~= all);
        out
    }
}

} // verus!
