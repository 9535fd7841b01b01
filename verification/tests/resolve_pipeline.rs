use price_aggregator::errors::{PriceError, ResolveError};
use price_aggregator::pipeline::{
    build_summaries, filter_identifiers, plan_symbol, sort_tickers_asc, summarize_asset,
    AssetDetail, TickerInfo,
};
use price_aggregator::resolve::{build_symbol_index, resolve_symbols, ListingEntry};

fn val(s: &str) -> serde_json::Value {
    serde_json::from_str(s).unwrap()
}

fn entry(symbol: &str, id: &str) -> ListingEntry {
    ListingEntry {
        symbol: Some(symbol.to_string()),
        id: Some(id.to_string()),
    }
}

#[test]
fn shared_symbol_maps_to_both_identifiers_in_order() {
    let listing = val(
        r#"[
            {"id":"ethereum","symbol":"eth","name":"Ethereum"},
            {"id":"ethereum-classic","symbol":"etc","name":"Ethereum Classic"},
            {"id":"ethereum-pow","symbol":"eth","name":"EthereumPoW"}
        ]"#,
    );
    let idx = resolve_symbols(&listing).unwrap();
    let ids = idx.lookup("eth").unwrap();
    assert_eq!(ids, &vec!["ethereum".to_string(), "ethereum-pow".to_string()]);
    let other = idx.lookup("etc").unwrap();
    assert_eq!(other, &vec!["ethereum-classic".to_string()]);
}

#[test]
fn resolution_rejects_a_non_array_listing() {
    let err = match resolve_symbols(&val("{\"id\":\"x\"}")) {
        Ok(_) => panic!("a non-array listing must not resolve"),
        Err(e) => e,
    };
    assert_eq!(err, ResolveError::NotAnArray);
}

#[test]
fn resolution_skips_entries_with_missing_or_empty_fields() {
    let listing = val(
        r#"[
            {"id":"bitcoin","symbol":"btc"},
            {"id":"","symbol":"zzz"},
            {"id":"nameless"},
            {"symbol":"idless"},
            {"id":"numeric-symbol","symbol":7},
            {"id":"empty-symbol","symbol":""}
        ]"#,
    );
    let idx = resolve_symbols(&listing).unwrap();
    assert_eq!(idx.len(), 1);
    assert!(idx.lookup("btc").is_some());
    assert!(idx.lookup("zzz").is_none());
    assert!(idx.lookup("idless").is_none());
}

#[test]
fn lookup_uppercases_its_input() {
    let idx = build_symbol_index(&vec![entry("btc", "bitcoin")]);
    assert_eq!(idx.lookup("Btc").unwrap(), &vec!["bitcoin".to_string()]);
    assert_eq!(idx.lookup("BTC").unwrap(), &vec!["bitcoin".to_string()]);
    assert!(idx.lookup("bt").is_none());
}

#[test]
fn index_keys_are_uppercase_in_insertion_order() {
    let idx = build_symbol_index(&vec![entry("btc", "bitcoin"), entry("eth", "ethereum")]);
    assert_eq!(idx.len(), 2);
    let (k0, v0) = idx.group_at(0);
    assert_eq!(k0, "BTC");
    assert_eq!(v0, &vec!["bitcoin".to_string()]);
    let (k1, _) = idx.group_at(1);
    assert_eq!(k1, "ETH");
}

#[test]
fn denylist_keeps_only_the_real_asset() {
    let ids = vec![
        "bitcoin".to_string(),
        "wrapped-bitcoin".to_string(),
        "bitcoin-bridged-usd".to_string(),
    ];
    let kept = filter_identifiers(&ids);
    assert_eq!(kept, vec!["bitcoin".to_string()]);
}

#[test]
fn denylist_covers_every_listed_substring() {
    let ids = vec![
        "good-one".to_string(),
        "wrapped-x".to_string(),
        "x-bridged".to_string(),
        "starkgate-x".to_string(),
        "osmosis-x".to_string(),
        "alleth-x".to_string(),
        "infinite-garden-x".to_string(),
        "good-two".to_string(),
    ];
    let kept = filter_identifiers(&ids);
    assert_eq!(kept, vec!["good-one".to_string(), "good-two".to_string()]);
}

#[test]
fn plan_symbol_filters_the_resolved_identifiers() {
    let idx = build_symbol_index(&vec![
        entry("btc", "bitcoin"),
        entry("btc", "wrapped-bitcoin"),
        entry("btc", "bitcoin-bridged-usd"),
    ]);
    let ids = plan_symbol(&idx, "btc").unwrap();
    assert_eq!(ids, vec!["bitcoin".to_string()]);
}

#[test]
fn plan_symbol_rejects_an_unknown_symbol() {
    let idx = build_symbol_index(&vec![entry("btc", "bitcoin")]);
    let err = plan_symbol(&idx, "doge").unwrap_err();
    assert_eq!(err, PriceError::UnsupportedSymbol);
}

fn ticker(exchange: &str, price: Option<u128>, volume: Option<u128>) -> TickerInfo {
    TickerInfo {
        exchange: Some(exchange.to_string()),
        price_usd: price,
        volume_usd: volume,
    }
}

fn asset(id: &str, cap: u128, tickers: Vec<TickerInfo>) -> AssetDetail {
    AssetDetail {
        id: id.to_string(),
        price_usd: Some(10_000_000),
        market_cap_usd: Some(cap),
        volume_24h_usd: Some(1_000_000),
        change_24h: Some(2_500_000),
        tickers,
    }
}

#[test]
fn assets_render_in_descending_market_cap_order() {
    let details = vec![
        asset("fifty", 50, vec![]),
        asset("two-hundred", 200, vec![]),
        asset("ten", 10, vec![]),
    ];
    let rendered = build_summaries("btc", details);
    assert_eq!(rendered.len(), 3);
    assert_eq!(rendered[0].summary.market_cap, 200);
    assert_eq!(rendered[0].summary.id, "two-hundred");
    assert_eq!(rendered[1].summary.market_cap, 50);
    assert_eq!(rendered[2].summary.market_cap, 10);
    assert_eq!(rendered[0].summary.symbol, "BTC");
}

#[test]
fn incomplete_assets_are_skipped_not_fatal() {
    let mut missing_cap = asset("no-cap", 1, vec![]);
    missing_cap.market_cap_usd = None;
    let mut missing_change = asset("no-change", 2, vec![]);
    missing_change.change_24h = None;
    let details = vec![missing_cap, asset("whole", 3, vec![]), missing_change];
    let rendered = build_summaries("eth", details);
    assert_eq!(rendered.len(), 1);
    assert_eq!(rendered[0].summary.id, "whole");
}

#[test]
fn tickers_sort_ascending_with_missing_prices_last() {
    let sorted = sort_tickers_asc(vec![
        ticker("A", None, Some(1_000_000)),
        ticker("B", Some(5_000_000), Some(1_000_000)),
        ticker("C", Some(2_000_000), Some(1_000_000)),
    ]);
    let names: Vec<&str> = sorted
        .iter()
        .map(|t| t.exchange.as_deref().unwrap())
        .collect();
    assert_eq!(names, vec!["C", "B", "A"]);
}

#[test]
fn cheapest_exchange_decides_the_summary_price() {
    let a = asset(
        "bitcoin",
        9_000_000,
        vec![
            ticker("A", None, Some(1_000_000)),
            ticker("B", Some(5_000_000), Some(1_000_000)),
            ticker("C", Some(2_000_000), Some(1_000_000)),
        ],
    );
    let (summary, rows) = summarize_asset("btc", &a).unwrap();
    assert_eq!(summary.exchange, "C");
    assert_eq!(summary.price, 2_000_000);
    // The table keeps the ascending order; the priceless ticker has no row.
    assert_eq!(
        rows,
        vec![
            vec!["C".to_string(), "$2.00".to_string(), "$1.00".to_string()],
            vec!["B".to_string(), "$5.00".to_string(), "$1.00".to_string()],
        ]
    );
}

#[test]
fn no_tickers_fall_back_to_market_price_and_unknown() {
    let a = asset("bitcoin", 9_000_000, vec![]);
    let (summary, rows) = summarize_asset("btc", &a).unwrap();
    assert_eq!(summary.exchange, "Unknown");
    assert_eq!(summary.price, 10_000_000);
    assert!(rows.is_empty());
}

#[test]
fn unusable_cheapest_ticker_falls_back_to_unknown() {
    // The cheapest ticker lacks its exchange name, so the summary falls back
    // even though a named, pricier ticker exists.
    let nameless = TickerInfo {
        exchange: None,
        price_usd: Some(1_000_000),
        volume_usd: Some(1_000_000),
    };
    let a = asset(
        "bitcoin",
        9_000_000,
        vec![ticker("B", Some(5_000_000), Some(1_000_000)), nameless],
    );
    let (summary, _) = summarize_asset("btc", &a).unwrap();
    assert_eq!(summary.exchange, "Unknown");
    assert_eq!(summary.price, 10_000_000);
}

#[test]
fn incomplete_asset_yields_no_summary() {
    let mut a = asset("bitcoin", 1, vec![]);
    a.volume_24h_usd = None;
    assert!(summarize_asset("btc", &a).is_none());
}

#[test]
fn ticker_table_keeps_at_most_five_rows() {
    let mut tickers = Vec::new();
    for i in 0..7u128 {
        let name = format!("E{}", i);
        tickers.push(ticker(&name, Some(1_000_000 + i), Some(1_000_000)));
    }
    let a = asset("bitcoin", 9_000_000, tickers);
    let (_, rows) = summarize_asset("btc", &a).unwrap();
    assert_eq!(rows.len(), 5);
    assert_eq!(rows[0][0], "E0");
    assert_eq!(rows[4][0], "E4");
}
