use price_aggregator::cache::{CacheEntry, CacheStore};
use price_aggregator::errors::{FetchError, PriceError, ResolveError};
use price_aggregator::orchestrator::{check_cache, record_response, ttl_for, FetchOutcome};

const LIST_URL: &str = "https://api.coingecko.com/api/v3/coins/list";
const DETAIL_URL: &str = "https://api.coingecko.com/api/v3/coins/bitcoin?localization=false&tickers=true&market_data=true&community_data=false&developer_data=false&sparkline=false";

fn val(s: &str) -> serde_json::Value {
    serde_json::from_str(s).unwrap()
}

#[test]
fn ttl_depends_on_endpoint_shape() {
    assert_eq!(ttl_for(LIST_URL), 3600);
    assert_eq!(ttl_for(DETAIL_URL), 300);
    assert_eq!(ttl_for("https://example.org/other"), 300);
}

#[test]
fn store_put_get_roundtrip() {
    let mut c = CacheStore::new();
    assert!(c.get(DETAIL_URL).is_none());
    let v = val("{\"market_data\":{}}");
    c.put(
        DETAIL_URL,
        CacheEntry {
            data: v.clone(),
            fetched_at: 42,
        },
    );
    let e = c.get(DETAIL_URL).unwrap();
    assert_eq!(e.fetched_at, 42);
    assert_eq!(e.data, v);
    assert!(c.get(LIST_URL).is_none());
}

#[test]
fn store_put_overwrites_wholesale() {
    let mut c = CacheStore::new();
    let v1 = val("[1]");
    let v2 = val("[2]");
    c.put(
        LIST_URL,
        CacheEntry {
            data: v1,
            fetched_at: 1,
        },
    );
    c.put(
        LIST_URL,
        CacheEntry {
            data: v2.clone(),
            fetched_at: 9,
        },
    );
    assert_eq!(c.len(), 1);
    let e = c.get(LIST_URL).unwrap();
    assert_eq!(e.fetched_at, 9);
    assert_eq!(e.data, v2);
}

#[test]
fn unseen_url_misses_then_populates() {
    let mut c = CacheStore::new();
    assert!(check_cache(&c, DETAIL_URL, 100).is_none());
    let v = val("{\"price\":1}");
    let got = record_response(&mut c, DETAIL_URL, 100, FetchOutcome::Payload(v.clone()));
    assert_eq!(got.unwrap(), v);
    let e = c.get(DETAIL_URL).unwrap();
    assert!(e.fetched_at <= 100);
    assert_eq!(e.fetched_at, 100);
    assert_eq!(e.data, v);
}

#[test]
fn second_fetch_within_ttl_hits_with_identical_data() {
    let mut c = CacheStore::new();
    let v = val("{\"price\":7}");
    record_response(&mut c, DETAIL_URL, 1000, FetchOutcome::Payload(v.clone())).unwrap();
    let hit = check_cache(&c, DETAIL_URL, 1299);
    assert_eq!(hit.unwrap(), v);
}

#[test]
fn listing_url_keeps_the_long_ttl() {
    let mut c = CacheStore::new();
    let v = val("[]");
    record_response(&mut c, LIST_URL, 1000, FetchOutcome::Payload(v.clone())).unwrap();
    assert_eq!(check_cache(&c, LIST_URL, 4599).unwrap(), v);
    assert!(check_cache(&c, LIST_URL, 4600).is_none());
}

#[test]
fn entry_aged_past_ttl_misses() {
    let mut c = CacheStore::new();
    let v = val("{\"price\":7}");
    record_response(&mut c, DETAIL_URL, 1000, FetchOutcome::Payload(v)).unwrap();
    assert!(check_cache(&c, DETAIL_URL, 1300).is_none());
}

#[test]
fn rate_limit_returns_stale_entry() {
    let mut c = CacheStore::new();
    let v = val("{\"price\":3}");
    record_response(&mut c, DETAIL_URL, 1000, FetchOutcome::Payload(v.clone())).unwrap();
    // Far past the TTL: the entry is stale, yet throttling falls back to it.
    assert!(check_cache(&c, DETAIL_URL, 99999).is_none());
    let got = record_response(&mut c, DETAIL_URL, 99999, FetchOutcome::RateLimited);
    assert_eq!(got.unwrap(), v);
    // The cache itself is left unchanged.
    assert_eq!(c.get(DETAIL_URL).unwrap().fetched_at, 1000);
}

#[test]
fn rate_limit_without_entry_fails() {
    let mut c = CacheStore::new();
    let got = record_response(&mut c, DETAIL_URL, 5, FetchOutcome::RateLimited);
    assert_eq!(got.unwrap_err(), FetchError::RateLimit);
}

#[test]
fn undecodable_body_is_a_decode_error() {
    let mut c = CacheStore::new();
    let got = record_response(&mut c, DETAIL_URL, 5, FetchOutcome::Undecodable);
    assert_eq!(got.unwrap_err(), FetchError::Decode);
    assert!(c.get(DETAIL_URL).is_none());
}

#[test]
fn transport_failure_is_a_transport_error() {
    let mut c = CacheStore::new();
    let got = record_response(&mut c, DETAIL_URL, 5, FetchOutcome::Failed);
    assert_eq!(got.unwrap_err(), FetchError::Transport);
    assert!(c.get(DETAIL_URL).is_none());
}

#[test]
fn error_messages() {
    assert_eq!(FetchError::Transport.message(), "request failed");
    assert_eq!(FetchError::RateLimit.message(), "Rate limit reached");
    assert_eq!(FetchError::Decode.message(), "failed to decode response body");
    assert_eq!(ResolveError::NotAnArray.message(), "Expected array of coins");
    assert_eq!(
        ResolveError::Fetch(FetchError::RateLimit).message(),
        "Rate limit reached"
    );
    assert_eq!(
        PriceError::UnsupportedSymbol.message(),
        "Unsupported coin symbol"
    );
    assert_eq!(
        PriceError::Resolve(ResolveError::NotAnArray).message(),
        "Expected array of coins"
    );
}
