//! The cached-fetch orchestrator.
//!
//! A fetch proceeds in two verified steps around the one outside action, the
//! HTTP GET, which the surrounding program performs:
//! 1. [`check_cache`] decides cache hit versus miss for the URL, under the
//!    TTL the URL's endpoint shape selects. A hit ends the fetch with the
//!    cached payload and no network call.
//! 2. On a miss the surrounding program issues the GET and reports what came
//!    back as a [`FetchOutcome`]; [`record_response`] turns that into the
//!    fetch's result and the cache's next state, falling back to a stale
//!    entry when the server throttled the request.

use vstd::prelude::*;

use crate::cache::{CacheEntry, CacheStore};
use crate::errors::FetchError;
use crate::text::{contains_sub, has_substring};

verus! {

/// Seconds a cached bulk-listing response stays valid: the listing changes
/// rarely, so an hourly refresh is safe.
pub const LISTING_TTL_SECS: u64 = 3600;

/// Seconds any other cached response stays valid: per-asset market data is
/// volatile, so it is refreshed every five minutes.
pub const DETAIL_TTL_SECS: u64 = 300;

/// The TTL the orchestrator applies to a URL: the long one for the bulk
/// asset-listing endpoint, the short one otherwise.
pub open spec fn spec_ttl_for(url: Seq<char>) -> u64 {
    if has_substring(url, "/coins/list"@) {
        LISTING_TTL_SECS
    } else {
        DETAIL_TTL_SECS
    }
}

/// The TTL for `url`.
pub fn ttl_for(url: &str) -> (r: u64)
    ensures
        r == spec_ttl_for(url@),
{
    if contains_sub(url, "/coins/list") {
        LISTING_TTL_SECS
    } else {
        DETAIL_TTL_SECS
    }
}

/// Whether a cache entry still counts as valid for `url` at time `now`.
pub open spec fn entry_fresh(e: CacheEntry, url: Seq<char>, now: u64) -> bool {
    e.fetched_at <= now && now - e.fetched_at < spec_ttl_for(url)
}

/// What the cache-hit check returns: the cached payload when a valid entry
/// exists, nothing otherwise.
pub open spec fn spec_check(
    cache: Map<Seq<char>, CacheEntry>,
    url: Seq<char>,
    now: u64,
) -> Option<serde_json::Value> {
    if cache.contains_key(url) && entry_fresh(cache[url], url, now) {
        Some(cache[url].data)
    } else {
        None
    }
}

/// Looks `url` up in the cache. `Some` is a cache hit: the fetch is answered
/// from the store and no network call is needed. `None` obliges the caller
/// to issue the GET and report the outcome to [`record_response`].
pub fn check_cache(cache: &CacheStore, url: &str, now: u64) -> (r: Option<serde_json::Value>)
    requires
        cache.wf(),
    ensures
        r == spec_check(cache@, url@, now),
{
    match cache.get(url) {
        Some(e) => {
            let ttl = ttl_for(url);
            if e.fetched_at <= now && now - e.fetched_at < ttl {
                Some(e.data.clone())
            } else {
                None
            }
        },
        None => None,
    }
}

/// What one HTTP GET of a URL came to, reported by the surrounding program.
pub enum FetchOutcome {
    /// A success status whose body decoded as JSON.
    Payload(serde_json::Value),
    /// A success status whose body was not valid JSON.
    Undecodable,
    /// HTTP 429: the server throttled the request.
    RateLimited,
    /// A transport failure or another non-success status.
    Failed,
}

/// The cache state after a response for `url` is recorded: a decoded payload
/// replaces the entry wholesale with fetch time `now`; nothing else changes
/// the store.
pub open spec fn spec_record_state(
    cache: Map<Seq<char>, CacheEntry>,
    url: Seq<char>,
    now: u64,
    outcome: FetchOutcome,
) -> Map<Seq<char>, CacheEntry> {
    match outcome {
        FetchOutcome::Payload(v) => cache.insert(url, CacheEntry { data: v, fetched_at: now }),
        _ => cache,
    }
}

/// The fetch's result once a response for `url` is recorded: the decoded
/// payload on success; on throttling the cached entry for the URL, however
/// stale, or a rate-limit error if none exists; a decode or transport error
/// otherwise.
pub open spec fn spec_record_result(
    cache: Map<Seq<char>, CacheEntry>,
    url: Seq<char>,
    outcome: FetchOutcome,
) -> Result<serde_json::Value, FetchError> {
    match outcome {
        FetchOutcome::Payload(v) => Ok(v),
        FetchOutcome::Undecodable => Err(FetchError::Decode),
        FetchOutcome::RateLimited => if cache.contains_key(url) {
            Ok(cache[url].data)
        } else {
            Err(FetchError::RateLimit)
        },
        FetchOutcome::Failed => Err(FetchError::Transport),
    }
}

/// Records what the GET of `url` came to, completing a fetch that missed the
/// cache.
pub fn record_response(
    cache: &mut CacheStore,
    url: &str,
    now: u64,
    outcome: FetchOutcome,
) -> (r: Result<serde_json::Value, FetchError>)
    requires
        old(cache).wf(),
    ensures
        final(cache).wf(),
        final(cache)@ == spec_record_state(old(cache)@, url@, now, outcome),
        r == spec_record_result(old(cache)@, url@, outcome),
{
    match outcome {
        FetchOutcome::Payload(v) => {
            let out = v.clone();
            cache.put(url, CacheEntry { data: v, fetched_at: now });
            Ok(out)
        },
        FetchOutcome::Undecodable => Err(FetchError::Decode),
        FetchOutcome::RateLimited => {
            match cache.get(url) {
                Some(e) => Ok(e.data.clone()),
                None => Err(FetchError::RateLimit),
            }
        },
        FetchOutcome::Failed => Err(FetchError::Transport),
    }
}

/// A URL never fetched before misses the cache, so exactly one network call
/// is made, and recording its decoded payload populates the cache with an
/// entry stamped `now`, returning that payload.
pub proof fn lemma_first_fetch_populates(
    cache: Map<Seq<char>, CacheEntry>,
    url: Seq<char>,
    now: u64,
    v: serde_json::Value,
)
    requires
        !cache.contains_key(url),
    ensures
        spec_check(cache, url, now) is None,
        spec_record_state(cache, url, now, FetchOutcome::Payload(v)).contains_key(url),
        spec_record_state(cache, url, now, FetchOutcome::Payload(v))[url].fetched_at == now,
        spec_record_state(cache, url, now, FetchOutcome::Payload(v))[url].data == v,
        spec_record_result(cache, url, FetchOutcome::Payload(v)) == Ok::<
            serde_json::Value,
            FetchError,
        >(v),
{
}

/// A URL fetched again within its TTL window hits the cache: the second
/// fetch makes no network call and returns data identical to what the first
/// fetch stored.
pub proof fn lemma_fresh_refetch_hits(
    cache: Map<Seq<char>, CacheEntry>,
    url: Seq<char>,
    t0: u64,
    now: u64,
    v: serde_json::Value,
)
    requires
        t0 <= now,
        now - t0 < spec_ttl_for(url),
    ensures
        spec_check(spec_record_state(cache, url, t0, FetchOutcome::Payload(v)), url, now)
            == Some(v),
{
}

/// A URL whose cached entry has aged past its TTL misses the cache, so a
/// subsequent fetch makes a new network call.
pub proof fn lemma_stale_entry_misses(cache: Map<Seq<char>, CacheEntry>, url: Seq<char>, now: u64)
    requires
        cache.contains_key(url),
        cache[url].fetched_at <= now,
        now - cache[url].fetched_at >= spec_ttl_for(url),
    ensures
        spec_check(cache, url, now) is None,
{
}

/// On a throttled response, a cache entry for the URL, however stale, is
/// returned unchanged; with no entry the fetch fails with a rate-limit
/// error. Either way the cache is left as it was.
pub proof fn lemma_rate_limit_falls_back(
    cache: Map<Seq<char>, CacheEntry>,
    url: Seq<char>,
    now: u64,
)
    ensures
        spec_record_state(cache, url, now, FetchOutcome::RateLimited) == cache,
        cache.contains_key(url) ==> spec_record_result(cache, url, FetchOutcome::RateLimited)
            == Ok::<serde_json::Value, FetchError>(cache[url].data),
        !cache.contains_key(url) ==> spec_record_result(cache, url, FetchOutcome::RateLimited)
            == Err::<serde_json::Value, FetchError>(FetchError::RateLimit),
{
}

} // verus!
