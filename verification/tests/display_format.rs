use price_aggregator::display::{CoinSummary, DisplayFormatter};

#[test]
fn currency_below_one_dollar_has_six_decimals() {
    let fmt = DisplayFormatter::new();
    assert_eq!(fmt.format_currency(500_000), "$0.500000");
    assert_eq!(fmt.format_currency(0), "$0.000000");
    assert_eq!(fmt.format_currency(999_999), "$0.999999");
    assert_eq!(fmt.format_currency(1), "$0.000001");
}

#[test]
fn currency_from_one_dollar_has_two_decimals() {
    let fmt = DisplayFormatter::new();
    assert_eq!(fmt.format_currency(1_500_200_000), "$1500.20");
    assert_eq!(fmt.format_currency(1_000_000), "$1.00");
    assert_eq!(fmt.format_currency(2_000_000_000_000), "$2000000.00");
}

#[test]
fn currency_rounds_half_away_from_zero_to_cents() {
    let fmt = DisplayFormatter::new();
    assert_eq!(fmt.format_currency(1_234_999), "$1.23");
    assert_eq!(fmt.format_currency(1_235_000), "$1.24");
    assert_eq!(fmt.format_currency(9_999_999), "$10.00");
}

#[test]
fn change_carries_an_explicit_sign_and_two_decimals() {
    let fmt = DisplayFormatter::new();
    assert_eq!(fmt.format_change(2_500_000), "+2.50%");
    assert_eq!(fmt.format_change(-3_100_000), "-3.10%");
    assert_eq!(fmt.format_change(0), "+0.00%");
    assert_eq!(fmt.format_change(-5_000), "-0.01%");
    assert_eq!(fmt.format_change(4_999), "+0.00%");
}

#[test]
fn header_frames_its_text() {
    let fmt = DisplayFormatter::new();
    assert_eq!(fmt.format_header("Supported Coins"), "\n=== Supported Coins ===");
}

#[test]
fn coin_summary_renders_every_line() {
    let fmt = DisplayFormatter::new();
    let summary = CoinSummary {
        symbol: "BTC".to_string(),
        id: "bitcoin".to_string(),
        exchange: "Kraken".to_string(),
        price: 2_000_000,
        market_cap: 1_500_200_000,
        volume_24h: 500_000,
        price_change_24h: -3_100_000,
    };
    let text = fmt.format_coin_summary(&summary);
    assert_eq!(
        text,
        "\n=== BTC (bitcoin) ===\nExchange: Kraken\nPrice: $2.00\nMarket Cap: $1500.20\n24h Volume: $0.500000\n24h Change: -3.10%"
    );
}
