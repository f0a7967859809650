//! Conversion of sat amounts to fiat, over a cached exchange rate.
//!
//! Prices are carried as whole cents, so rounding to two decimals is
//! exact integer arithmetic.  The cache-or-fetch decision lives here;
//! fetching the rate is the application's work.

use vstd::prelude::*;

use crate::errors::ServiceError;

verus! {

/// How many sats make one coin.
pub open spec fn sats_per_coin() -> int {
    100_000_000
}

/// A cached exchange rate: whole cents per coin, and when it was
/// fetched (unix seconds).
#[derive(Debug, Clone, Copy)]
pub struct PriceCache {
    pub price_cents: u64,
    pub last_updated: i64,
}

/// What to do for a rate request, given the cache and the clock.
#[derive(Debug, Clone, Copy, PartialEq, Eq, Structural)]
pub enum PriceStep {
    /// The cached rate is fresh: use these cents per coin.
    UseCached(u64),
    /// Fetch a new rate; fall back to the stale cache only if the
    /// fetch fails.
    Refresh,
}

/// How long a cached rate stays fresh: five minutes.
pub open spec fn cache_duration_secs() -> int {
    300
}

/// The fiat cents a sat amount is worth at a rate, rounded half away
/// from zero to whole cents.
pub open spec fn spec_sats_to_cents(sats: u64, price_cents: u64) -> int {
    (sats * price_cents + sats_per_coin() / 2) / sats_per_coin()
}

/// Convert sats to fiat cents at the given rate, rounding to whole
/// cents (two decimals of the fiat unit).
pub fn sats_to_usd_with_price(sats: u64, price_cents: u64) -> (r: u128)
    ensures
        r == spec_sats_to_cents(sats, price_cents),
{
    proof {
        vstd::arithmetic::mul::lemma_mul_upper_bound(
            sats as int,
            0xffff_ffff_ffff_ffff,
            price_cents as int,
            0xffff_ffff_ffff_ffff,
        );
    }
    let product: u128 = (sats as u128) * (price_cents as u128);
    (product + 50_000_000) / 100_000_000
}

/// Whether a cached rate is still fresh: fetched no more than the
/// cache duration ago, by a clock that has not run backwards.
pub open spec fn cache_fresh(cache: PriceCache, now: i64) -> bool {
    0 <= now - cache.last_updated < cache_duration_secs()
}

/// Decide between the cached rate and a fetch: the cache is used
/// exactly while it is fresh.
pub fn price_cache_action(cache: &Option<PriceCache>, now: i64) -> (r: PriceStep)
    ensures
        r == (match cache {
            Some(c) => if cache_fresh(*c, now) {
                PriceStep::UseCached(c.price_cents)
            } else {
                PriceStep::Refresh
            },
            None => PriceStep::Refresh,
        }),
{
    match cache {
        Some(c) => {
            if now >= c.last_updated && (now as i128) - (c.last_updated as i128) < 300 {
                PriceStep::UseCached(c.price_cents)
            } else {
                PriceStep::Refresh
            }
        },
        None => PriceStep::Refresh,
    }
}

/// After a failed fetch: fall back to the cached rate even if stale,
/// and fail only when there has never been one.
pub fn fallback_price(cache: &Option<PriceCache>) -> (r: Result<u64, ServiceError>)
    ensures
        r is Ok <==> cache is Some,
        r matches Ok(p) ==> p == cache->0.price_cents,
        r matches Err(e) ==> e matches ServiceError::ExternalService { message } && message@
            == "Failed to fetch BTC price and no cached value"@,
{
    match cache {
        Some(c) => Ok(c.price_cents),
        None => Err(
            ServiceError::ExternalService {
                message: "Failed to fetch BTC price and no cached value".to_owned(),
            },
        ),
    }
}

} // verus!
