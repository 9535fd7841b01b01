//! Plain-text rendering of summaries and amounts.
//!
//! Money amounts are carried as integer micro-dollars (millionths of one
//! USD) and percentages as millionths of one percent, so every formatting
//! rule is stated and proved exactly. Colour and table borders are terminal
//! presentation and live outside the library.

use vstd::prelude::*;
use vstd::string::StringExecFns;

verus! {

/// The largest amount the currency formatter accepts: rounding adds half of
/// one hundredth of a dollar, which must not overflow.
pub const CURRENCY_MAX: u128 = u128::MAX - 5000;

/// The decimal digit `d` as a character; `d` is expected in `0..10`.
pub open spec fn digit_char(d: int) -> char {
    if d == 0 {
        '0'
    } else if d == 1 {
        '1'
    } else if d == 2 {
        '2'
    } else if d == 3 {
        '3'
    } else if d == 4 {
        '4'
    } else if d == 5 {
        '5'
    } else if d == 6 {
        '6'
    } else if d == 7 {
        '7'
    } else if d == 8 {
        '8'
    } else {
        '9'
    }
}

/// The decimal digits of `n`, most significant first.
pub open spec fn spec_dec(n: int) -> Seq<char>
    decreases n,
{
    if n < 10 {
        seq![digit_char(n)]
    } else {
        spec_dec(n / 10).push(digit_char(n % 10))
    }
}

/// The digit `d` as a one-character string.
fn digit_str(d: u128) -> (r: &'static str)
    requires
        d < 10,
    ensures
        r@ == seq![digit_char(d as int)],
{
    let r: &'static str = match d {
        0 => "0",
        1 => "1",
        2 => "2",
        3 => "3",
        4 => "4",
        5 => "5",
        6 => "6",
        7 => "7",
        8 => "8",
        _ => "9",
    };
    proof {
        reveal_strlit("0");
        reveal_strlit("1");
        reveal_strlit("2");
        reveal_strlit("3");
        reveal_strlit("4");
        reveal_strlit("5");
        reveal_strlit("6");
        reveal_strlit("7");
        reveal_strlit("8");
        reveal_strlit("9");
        assert(r@ =~= seq![digit_char(d as int)]);
    }
    r
}

/// `n` in decimal.
pub fn fmt_u128(n: u128) -> (r: String)
    ensures
        r@ == spec_dec(n as int),
    decreases n,
{
    if n < 10 {
        String::from_str(digit_str(n))
    } else {
        let mut s = fmt_u128(n / 10);
        s.append(digit_str(n % 10));
        s
    }
}

/// A currency amount in micro-dollars rendered as text: two decimal places
/// from one dollar up (rounded half away from zero to cents), six exact
/// decimal places below one dollar.
pub open spec fn spec_currency(micro: u128) -> Seq<char> {
    if micro >= 1000000 {
        let cents = (micro + 5000) / 10000;
        "$"@ + spec_dec(cents / 100) + "."@ + seq![digit_char(cents % 100 / 10)] + seq![
            digit_char(cents % 10),
        ]
    } else {
        "$0."@ + seq![digit_char(micro as int / 100000 % 10)] + seq![
            digit_char(micro as int / 10000 % 10),
        ] + seq![digit_char(micro as int / 1000 % 10)] + seq![digit_char(micro as int / 100 % 10)]
            + seq![digit_char(micro as int / 10 % 10)] + seq![digit_char(micro as int % 10)]
    }
}

/// A signed percentage in millionths of one percent rendered as text: an
/// explicit sign, `+` for non-negative values, then the magnitude rounded
/// half away from zero to two decimal places, then `%`.
pub open spec fn spec_change(change: int) -> Seq<char> {
    let mag = if change >= 0 {
        change
    } else {
        -change
    };
    let h = (mag + 5000) / 10000;
    (if change >= 0 {
        "+"@
    } else {
        "-"@
    }) + spec_dec(h / 100) + "."@ + seq![digit_char(h % 100 / 10)] + seq![digit_char(h % 10)] + "%"@
}

/// A section header around `text`.
pub open spec fn spec_header(text: Seq<char>) -> Seq<char> {
    "\n=== "@ + text + " ==="@
}

/// One asset's display-ready summary: which exchange sells it cheapest and
/// the asset's own market figures. Amounts are micro-dollars; the change is
/// millionths of one percent.
pub struct CoinSummary {
    pub symbol: String,
    pub id: String,
    pub exchange: String,
    pub price: u128,
    pub market_cap: u128,
    pub volume_24h: u128,
    pub price_change_24h: i64,
}

/// The text [`DisplayFormatter::format_coin_summary`] renders for a summary.
pub open spec fn spec_summary_text(c: CoinSummary) -> Seq<char> {
    spec_header(c.symbol@ + " ("@ + c.id@ + ")"@) + "\nExchange: "@ + c.exchange@ + "\nPrice: "@
        + spec_currency(c.price) + "\nMarket Cap: "@ + spec_currency(c.market_cap)
        + "\n24h Volume: "@ + spec_currency(c.volume_24h) + "\n24h Change: "@ + spec_change(
        c.price_change_24h as int,
    )
}

/// Renders amounts, changes, headers and summaries as plain text.
pub struct DisplayFormatter;

impl DisplayFormatter {
    /// A formatter.
    pub fn new() -> (r: Self)
        ensures
            r == (DisplayFormatter {  }),
    {
        Self {  }
    }

    /// `text` under the section-header decoration.
    pub fn format_header(&self, text: &str) -> (r: String)
        ensures
            r@ == spec_header(text@),
    {
        let mut s = String::from_str("\n=== ");
        s.append(text);
        s.append(" ===");
        s
    }

    /// `amount` micro-dollars as a dollar amount: two decimals from one
    /// dollar up, six below.
    pub fn format_currency(&self, amount: u128) -> (r: String)
        requires
            amount <= CURRENCY_MAX,
        ensures
            r@ == spec_currency(amount),
    {
        if amount >= 1000000 {
            let cents = (amount + 5000) / 10000;
            let mut s = String::from_str("$");
            let whole = fmt_u128(cents / 100);
            s.append(whole.as_str());
            s.append(".");
            s.append(digit_str(cents % 100 / 10));
            s.append(digit_str(cents % 10));
            s
        } else {
            let mut s = String::from_str("$0.");
            s.append(digit_str(amount / 100000 % 10));
            s.append(digit_str(amount / 10000 % 10));
            s.append(digit_str(amount / 1000 % 10));
            s.append(digit_str(amount / 100 % 10));
            s.append(digit_str(amount / 10 % 10));
            s.append(digit_str(amount % 10));
            s
        }
    }

    /// `change` millionths of one percent as a signed two-decimal
    /// percentage.
    pub fn format_change(&self, change: i64) -> (r: String)
        requires
            change > i64::MIN,
        ensures
            r@ == spec_change(change as int),
    {
        let mag: u128 = if change >= 0 {
            change as u128
        } else {
            (-change) as u128
        };
        let h = (mag + 5000) / 10000;
        let mut s = if change >= 0 {
            String::from_str("+")
        } else {
            String::from_str("-")
        };
        let whole = fmt_u128(h / 100);
        s.append(whole.as_str());
        s.append(".");
        s.append(digit_str(h % 100 / 10));
        s.append(digit_str(h % 10));
        s.append("%");
        s
    }

    /// The multi-line text block for one summary.
    pub fn format_coin_summary(&self, coin_data: &CoinSummary) -> (r: String)
        requires
            coin_data.price <= CURRENCY_MAX,
            coin_data.market_cap <= CURRENCY_MAX,
            coin_data.volume_24h <= CURRENCY_MAX,
            coin_data.price_change_24h > i64::MIN,
        ensures
            r@ == spec_summary_text(*coin_data),
    {
        let mut title = coin_data.symbol.clone();
        title.append(" (");
        title.append(coin_data.id.as_str());
        title.append(")");
        let mut s = self.format_header(title.as_str());
        s.append("\nExchange: ");
        s.append(coin_data.exchange.as_str());
        s.append("\nPrice: ");
        let p = self.format_currency(coin_data.price);
        s.append(p.as_str());
        s.append("\nMarket Cap: ");
        let m = self.format_currency(coin_data.market_cap);
        s.append(m.as_str());
        s.append("\n24h Volume: ");
        let v = self.format_currency(coin_data.volume_24h);
        s.append(v.as_str());
        s.append("\n24h Change: ");
        let ch = self.format_change(coin_data.price_change_24h);
        s.append(ch.as_str());
        s
    }
}

} // verus!
