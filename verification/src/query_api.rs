//! Listings and searches over the catalogs.

use vstd::prelude::*;
use vstd::string::StringExecFns;
use crate::asset_registry::{lemma_filter_all_assets, lists_assets, passes_filter, AssetRegistry};
use crate::bundle_manager::{bundle_of, copy_asset_allocations, has_bundle, lists, uses_asset, BundleStore};
use crate::error::Error;
use crate::nav_calculator::saturated;
use crate::principal::PrincipalId;
use crate::transaction_manager::capped_count;
use crate::types::{
    AssetCategory,
    AssetFilter,
    AssetInfo,
    AssetSummary,
    BundleConfig,
    BundleSummary,
    CanisterInfo,
    NAVTokenHolding,
    XFusionNAVToken,
};

verus! {

/// The text with every letter in lower case, as `str::to_lowercase` gives
/// it.
pub uninterp spec fn lowercase(text: Seq<char>) -> Seq<char>;

/// Whether `pattern` occurs in `text` as a run of characters.
pub open spec fn contains_text(text: Seq<char>, pattern: Seq<char>) -> bool {
    exists|i: int| 0 <= i <= text.len() - pattern.len() && #[trigger] text.subrange(i, i + pattern.len()) == pattern
}

/// `str::to_lowercase`: the text with every letter in lower case.
#[verifier::external_body]
fn to_lowercase(text: &str) -> (lowered: String)
    ensures
        lowered@ == lowercase(text@),
{
    text.to_lowercase()
}

/// `str::contains` with a string pattern: whether the pattern occurs in the
/// text.
#[verifier::external_body]
fn text_contains(text: &str, pattern: &str) -> (found: bool)
    ensures
        found == contains_text(text@, pattern@),
{
    text.contains(pattern)
}

/// Whether the query occurs in the text, whatever the case of either.
pub open spec fn mentions(text: Seq<char>, query: Seq<char>) -> bool {
    contains_text(lowercase(text), lowercase(query))
}

/// Whether an asset's symbol, name or id mentions the query.
pub open spec fn asset_mentions(asset: AssetInfo, query: Seq<char>) -> bool {
    mentions(asset.symbol@, query) || mentions(asset.name@, query) || mentions(asset.id@, query)
}

/// Whether a bundle's name or description mentions the query.
pub open spec fn bundle_mentions(bundle: BundleConfig, query: Seq<char>) -> bool {
    mentions(bundle.name@, query) || (bundle.description matches Some(d) && mentions(d@, query))
}

fn text_mentions(text: &str, lowered_query: &str) -> (r: bool)
    ensures
        r == contains_text(lowercase(text@), lowered_query@),
{
    let lowered = to_lowercase(text);
    text_contains(lowered.as_str(), lowered_query)
}

/// The version of the engine and the counts of its catalogs.
pub fn get_canister_info(registry: &AssetRegistry, bundles: &BundleStore) -> (info: CanisterInfo)
    ensures
        info.version@ == "0.1.0"@,
        info.total_assets == registry@.len(),
        info.total_bundles == bundles@.len(),
        info.total_nav_tokens == 0,
{
    CanisterInfo {
        version: String::from_str("0.1.0"),
        total_assets: registry.get_asset_count(),
        total_bundles: bundles.get_bundle_count(),
        total_nav_tokens: crate::nav_token::get_total_nav_token_supply(),
    }
}

/// The assets whose symbol, name or id mentions the query, whatever the
/// case.
pub fn search_assets<'a>(registry: &'a AssetRegistry, query: &str) -> (out: Vec<&'a AssetInfo>)
    ensures
        lists_assets(out@, registry@.filter(|a: AssetInfo| asset_mentions(a, query@))),
{
    let lowered = to_lowercase(query);
    let all = registry.list_assets(&None);
    let ghost wanted = |a: AssetInfo| asset_mentions(a, query@);
    let ghost source = registry@;
    proof {
        lemma_filter_all_assets(source);
    }
    let mut out: Vec<&AssetInfo> = Vec::new();
    let mut i: usize = 0;
    proof {
        reveal(Seq::filter);
        assert(source.take(0).filter(wanted) =~= Seq::<AssetInfo>::empty());
    }
    while i < all.len()
        invariant
            i <= all.len(),
            all@.len() == source.len(),
            forall|k: int| 0 <= k < all@.len() ==> *(#[trigger] all@[k]) == source[k],
            lowered@ == lowercase(query@),
            wanted == (|a: AssetInfo| asset_mentions(a, query@)),
            lists_assets(out@, source.take(i as int).filter(wanted)),
        decreases all.len() - i,
    {
        proof {
            assert(source.take(i + 1) =~= source.take(i as int).push(source[i as int]));
            source.take(i as int).lemma_filter_push(source[i as int], wanted);
        }
        let asset = all[i];
        if text_mentions(asset.symbol.as_str(), lowered.as_str()) || text_mentions(
            asset.name.as_str(),
            lowered.as_str(),
        ) || text_mentions(asset.id.0.as_str(), lowered.as_str()) {
            out.push(asset);
        }
        i += 1;
    }
    assert(source.take(i as int) =~= source);
    out
}

/// The active bundles whose name or description mentions the query,
/// whatever the case.
pub fn search_bundles<'a>(bundles: &'a BundleStore, query: &str) -> (out: Vec<&'a BundleConfig>)
    ensures
        lists(out@, bundles@.filter(|b: BundleConfig| b.is_active).filter(|b: BundleConfig| bundle_mentions(b, query@))),
{
    let lowered = to_lowercase(query);
    let all = bundles.list_active_bundles();
    let ghost wanted = |b: BundleConfig| bundle_mentions(b, query@);
    let ghost source = bundles@.filter(|b: BundleConfig| b.is_active);
    let mut out: Vec<&BundleConfig> = Vec::new();
    let mut i: usize = 0;
    proof {
        reveal(Seq::filter);
        assert(source.take(0).filter(wanted) =~= Seq::<BundleConfig>::empty());
    }
    while i < all.len()
        invariant
            i <= all.len(),
            all@.len() == source.len(),
            forall|k: int| 0 <= k < all@.len() ==> *(#[trigger] all@[k]) == source[k],
            lowered@ == lowercase(query@),
            wanted == (|b: BundleConfig| bundle_mentions(b, query@)),
            lists(out@, source.take(i as int).filter(wanted)),
        decreases all.len() - i,
    {
        proof {
            assert(source.take(i + 1) =~= source.take(i as int).push(source[i as int]));
            source.take(i as int).lemma_filter_push(source[i as int], wanted);
        }
        let bundle = all[i];
        let in_description = match &bundle.description {
            Some(d) => text_mentions(d.as_str(), lowered.as_str()),
            None => false,
        };
        if text_mentions(bundle.name.as_str(), lowered.as_str()) || in_description {
            out.push(bundle);
        }
        i += 1;
    }
    assert(source.take(i as int) =~= source);
    out
}

/// A copy of a category.
pub fn copy_category(category: &AssetCategory) -> (r: AssetCategory)
    ensures
        r == *category,
{
    match category {
        AssetCategory::Cryptocurrency => AssetCategory::Cryptocurrency,
        AssetCategory::Stablecoin => AssetCategory::Stablecoin,
        AssetCategory::CommodityBacked => AssetCategory::CommodityBacked,
        AssetCategory::Stocks => AssetCategory::Stocks,
        AssetCategory::Other(text) => AssetCategory::Other(text.clone()),
    }
}

/// An asset as a listing shows it, with the number of bundles that hold
/// it.
pub open spec fn asset_summary(asset: AssetInfo, bundles: Seq<BundleConfig>) -> AssetSummary {
    AssetSummary {
        id: asset.id,
        symbol: asset.symbol,
        name: asset.name,
        category: asset.metadata.category,
        standard: asset.standard,
        is_active: asset.is_active,
        bundles_using: capped_count(bundles.filter(|b: BundleConfig| uses_asset(b, asset.id@)).len() as int),
    }
}

/// The active assets as a listing shows them.
pub fn get_asset_summary(registry: &AssetRegistry, bundles: &BundleStore) -> (out: Vec<AssetSummary>)
    ensures
        out@ == registry@.filter(|a: AssetInfo| a.is_active).map_values(|a: AssetInfo| asset_summary(a, bundles@)),
{
    let filter = Some(AssetFilter { active_only: true, category: None, standard: None });
    let active = registry.list_assets(&filter);
    let ghost source = registry@.filter(|a: AssetInfo| a.is_active);
    let ghost summary = |a: AssetInfo| asset_summary(a, bundles@);
    proof {
        assert(registry@.filter(|a: AssetInfo| passes_filter(a, filter)) =~= source) by {
            crate::asset_registry::lemma_filters_agree(
                registry@,
                |a: AssetInfo| passes_filter(a, filter),
                |a: AssetInfo| a.is_active,
            );
        }
    }
    let mut out: Vec<AssetSummary> = Vec::new();
    let mut i: usize = 0;
    while i < active.len()
        invariant
            i <= active.len(),
            active@.len() == source.len(),
            forall|k: int| 0 <= k < active@.len() ==> *(#[trigger] active@[k]) == source[k],
            summary == (|a: AssetInfo| asset_summary(a, bundles@)),
            out@.len() == i,
            forall|k: int| 0 <= k < i ==> #[trigger] out@[k] == asset_summary(source[k], bundles@),
        decreases active.len() - i,
    {
        let asset = active[i];
        let using = bundles.get_bundles_using_asset(&asset.id);
        let count: u32 = if using.len() > 0xFFFF_FFFFusize {
            0xFFFF_FFFFu32
        } else {
            using.len() as u32
        };
        out.push(
            AssetSummary {
                id: asset.id.clone(),
                symbol: asset.symbol.clone(),
                name: asset.name.clone(),
                category: copy_category(&asset.metadata.category),
                standard: asset.standard,
                is_active: asset.is_active,
                bundles_using: count,
            },
        );
        i += 1;
    }
    assert(out@ =~= source.map_values(summary));
    out
}

/// A bundle as a listing shows it, with the supply of its token and the
/// number of its holders as the caller found them.
pub fn get_bundle_summary(bundles: &BundleStore, bundle_id: u64, total_nav_tokens: u64, holder_count: u32) -> (r:
    Result<BundleSummary, Error>)
    requires
        bundles.wf(),
    ensures
        match r {
            Ok(summary) => {
                &&& has_bundle(bundles@, bundle_id)
                &&& summary.id == bundle_id
                &&& summary.name == bundle_of(bundles@, bundle_id).name
                &&& summary.creator == bundle_of(bundles@, bundle_id).creator
                &&& summary.created_at == bundle_of(bundles@, bundle_id).created_at
                &&& summary.allocations@ == bundle_of(bundles@, bundle_id).allocations@
                &&& summary.total_nav_tokens == total_nav_tokens
                &&& summary.holder_count == holder_count
                &&& summary.is_active == bundle_of(bundles@, bundle_id).is_active
            },
            Err(e) => !has_bundle(bundles@, bundle_id) && e == (Error::BundleNotFound { bundle_id }),
        },
{
    match bundles.get_bundle(bundle_id) {
        Err(e) => Err(e),
        Ok(bundle) => Ok(
            BundleSummary {
                id: bundle.id,
                name: bundle.name.clone(),
                creator: bundle.creator,
                created_at: bundle.created_at,
                allocations: copy_asset_allocations(&bundle.allocations),
                total_nav_tokens,
                holder_count,
                is_active: bundle.is_active,
            },
        ),
    }
}

/// What a user holds and has created.
#[derive(Debug)]
pub struct UserPortfolio {
    pub user: PrincipalId,
    pub nav_token_holdings: Vec<NAVTokenHolding>,
    /// The ids of the bundles that the user created.
    pub created_bundles: Vec<u64>,
    pub total_bundles_created: u32,
    pub total_nav_tokens_held: u64,
}

/// The name under which a bundle is shown; a bundle that is not known is
/// shown as `Unknown Bundle`.
pub open spec fn shown_name(bundles: Seq<BundleConfig>, bundle_id: u64) -> Seq<char> {
    if has_bundle(bundles, bundle_id) {
        bundle_of(bundles, bundle_id).name@
    } else {
        "Unknown Bundle"@
    }
}

/// The sum of the amounts of the tokens.
pub open spec fn tokens_held(tokens: Seq<XFusionNAVToken>) -> nat
    decreases tokens.len(),
{
    if tokens.len() == 0 {
        0
    } else {
        tokens_held(tokens.drop_last()) + tokens.last().amount as nat
    }
}

/// What a user holds and has created: one holding for each of the user's
/// token records, with the name of its bundle, and the ids of the bundles
/// that the user created.
pub fn get_user_portfolio(bundles: &BundleStore, user: PrincipalId, tokens: &Vec<XFusionNAVToken>) -> (portfolio:
    UserPortfolio)
    requires
        bundles.wf(),
    ensures
        portfolio.user == user,
        portfolio.nav_token_holdings@.len() == tokens@.len(),
        forall|i: int|
            0 <= i < tokens@.len() ==> {
                &&& (#[trigger] portfolio.nav_token_holdings@[i]).bundle_id == tokens@[i].bundle_id
                &&& portfolio.nav_token_holdings@[i].bundle_name@ == shown_name(bundles@, tokens@[i].bundle_id)
                &&& portfolio.nav_token_holdings@[i].amount == tokens@[i].amount
                &&& portfolio.nav_token_holdings@[i].last_updated == tokens@[i].last_updated
            },
        portfolio.created_bundles@ == bundles@.filter(|b: BundleConfig| b.creator == user).map_values(
            |b: BundleConfig| b.id,
        ),
        portfolio.total_bundles_created == capped_count(portfolio.created_bundles@.len() as int),
        portfolio.total_nav_tokens_held == saturated(tokens_held(tokens@)),
{
    let mut holdings: Vec<NAVTokenHolding> = Vec::new();
    let mut total: u64 = 0;
    let mut i: usize = 0;
    while i < tokens.len()
        invariant
            i <= tokens.len(),
            bundles.wf(),
            holdings@.len() == i,
            total == saturated(tokens_held(tokens@.take(i as int))),
            forall|k: int|
                0 <= k < i ==> {
                    &&& (#[trigger] holdings@[k]).bundle_id == tokens@[k].bundle_id
                    &&& holdings@[k].bundle_name@ == shown_name(bundles@, tokens@[k].bundle_id)
                    &&& holdings@[k].amount == tokens@[k].amount
                    &&& holdings@[k].last_updated == tokens@[k].last_updated
                },
        decreases tokens.len() - i,
    {
        assert(tokens@.take(i + 1).drop_last() =~= tokens@.take(i as int));
        let token = &tokens[i];
        let name = match bundles.get_bundle(token.bundle_id) {
            Ok(bundle) => bundle.name.clone(),
            Err(_) => String::from_str("Unknown Bundle"),
        };
        holdings.push(
            NAVTokenHolding {
                bundle_id: token.bundle_id,
                bundle_name: name,
                amount: token.amount,
                last_updated: token.last_updated,
            },
        );
        total = total.saturating_add(token.amount);
        i += 1;
    }
    assert(tokens@.take(i as int) =~= tokens@);
    let created = bundles.get_user_bundles(&user);
    let ghost source = bundles@.filter(|b: BundleConfig| b.creator == user);
    let ghost id_of = |b: BundleConfig| b.id;
    let mut ids: Vec<u64> = Vec::new();
    let mut j: usize = 0;
    while j < created.len()
        invariant
            j <= created.len(),
            created@.len() == source.len(),
            forall|k: int| 0 <= k < created@.len() ==> *(#[trigger] created@[k]) == source[k],
            ids@.len() == j,
            forall|k: int| 0 <= k < j ==> #[trigger] ids@[k] == source[k].id,
        decreases created.len() - j,
    {
        ids.push(created[j].id);
        j += 1;
    }
    assert(ids@ =~= source.map_values(id_of));
    let count: u32 = if ids.len() > 0xFFFF_FFFFusize {
        0xFFFF_FFFFu32
    } else {
        ids.len() as u32
    };
    UserPortfolio {
        user,
        nav_token_holdings: holdings,
        created_bundles: ids,
        total_bundles_created: count,
        total_nav_tokens_held: total,
    }
}

} // verus!
