//! The price-aggregation pipeline.
//!
//! For a resolved symbol the pipeline filters out derivative identifiers,
//! ranks the fetched assets by market capitalisation, ranks each asset's
//! exchange tickers by price, and emits display-ready summaries. Fetching
//! itself goes through the orchestrator; a per-identifier fetch failure
//! skips that identifier and never aborts the rest, which is why the
//! pipeline takes the successfully fetched details as a plain list.
//!
//! Every identifier surviving the six-pattern denylist is fetched; no
//! further cap is applied to the candidate list.

use vstd::prelude::*;
use vstd::string::StringExecFns;

use crate::display::{spec_currency, CoinSummary, DisplayFormatter, CURRENCY_MAX};
use crate::errors::PriceError;
use crate::resolve::{spec_lookup, SymbolIndex};
use crate::text::{contains_sub, has_substring, to_upper, upper_of};

verus! {

/// One exchange listing inside a per-asset response, as far as the pipeline
/// reads it: the exchange's name, and the price and 24h volume converted to
/// micro-dollars. Any field may be absent in the response.
pub struct TickerInfo {
    pub exchange: Option<String>,
    pub price_usd: Option<u128>,
    pub volume_usd: Option<u128>,
}

impl Clone for TickerInfo {
    fn clone(&self) -> (r: Self)
        ensures
            r == *self,
    {
        TickerInfo {
            exchange: match &self.exchange {
                Some(s) => Some(s.clone()),
                None => None,
            },
            price_usd: self.price_usd,
            volume_usd: self.volume_usd,
        }
    }
}

/// One fetched per-asset response, reduced to the plain values the pipeline
/// reads: the asset's own market figures in micro-dollars (the 24h change in
/// millionths of one percent) and its exchange tickers. A field the
/// response lacked is `None`.
pub struct AssetDetail {
    pub id: String,
    pub price_usd: Option<u128>,
    pub market_cap_usd: Option<u128>,
    pub volume_24h_usd: Option<u128>,
    pub change_24h: Option<i64>,
    pub tickers: Vec<TickerInfo>,
}

/// A ticker's amounts stay below the formatter's limit.
pub open spec fn ticker_bounded(t: TickerInfo) -> bool {
    &&& match t.price_usd {
        Some(p) => p <= CURRENCY_MAX,
        None => true,
    }
    &&& match t.volume_usd {
        Some(v) => v <= CURRENCY_MAX,
        None => true,
    }
}

/// An asset's amounts stay below the formatter's limits.
pub open spec fn asset_bounded(a: AssetDetail) -> bool {
    &&& match a.price_usd {
        Some(p) => p <= CURRENCY_MAX,
        None => true,
    }
    &&& match a.market_cap_usd {
        Some(c) => c <= CURRENCY_MAX,
        None => true,
    }
    &&& match a.volume_24h_usd {
        Some(v) => v <= CURRENCY_MAX,
        None => true,
    }
    &&& match a.change_24h {
        Some(c) => c > i64::MIN,
        None => true,
    }
    &&& forall|k: int| 0 <= k < a.tickers@.len() ==> ticker_bounded(#[trigger] a.tickers@[k])
}

/// The response held every figure a summary needs: price, market cap, 24h
/// volume and 24h change, each in USD.
pub open spec fn is_complete(a: AssetDetail) -> bool {
    &&& a.price_usd is Some
    &&& a.market_cap_usd is Some
    &&& a.volume_24h_usd is Some
    &&& a.change_24h is Some
}

/// An identifier naming a wrapped, bridged or synthetic variant duplicates
/// the real asset's price, so resolution drops it.
pub open spec fn spec_denied(id: Seq<char>) -> bool {
    ||| has_substring(id, "wrapped"@)
    ||| has_substring(id, "bridged"@)
    ||| has_substring(id, "starkgate"@)
    ||| has_substring(id, "osmosis"@)
    ||| has_substring(id, "alleth"@)
    ||| has_substring(id, "infinite-garden"@)
}

/// The identifiers that survive the denylist, in their original order.
pub open spec fn spec_keep(ids: Seq<Seq<char>>) -> Seq<Seq<char>>
    decreases ids.len(),
{
    if ids.len() == 0 {
        Seq::empty()
    } else {
        spec_keep(ids.drop_last()) + (if spec_denied(ids.last()) {
            Seq::empty()
        } else {
            seq![ids.last()]
        })
    }
}

/// Whether the denylist drops `id`.
pub fn is_denied(id: &str) -> (r: bool)
    ensures
        r == spec_denied(id@),
{
    contains_sub(id, "wrapped") || contains_sub(id, "bridged") || contains_sub(id, "starkgate")
        || contains_sub(id, "osmosis") || contains_sub(id, "alleth") || contains_sub(
        id,
        "infinite-garden",
    )
}

/// Drops every denylisted identifier, keeping the rest in order.
pub fn filter_identifiers(ids: &Vec<String>) -> (r: Vec<String>)
    ensures
        r.deep_view() == spec_keep(ids.deep_view()),
{
    let ghost idsv = ids.deep_view();
    let mut out: Vec<String> = Vec::new();
    let n = ids.len();
    let mut i: usize = 0;
    while i < n
        invariant
            n == ids@.len(),
            idsv == ids.deep_view(),
            idsv.len() == n,
            i <= n,
            out.deep_view() == spec_keep(idsv.take(i as int)),
        decreases n - i,
    {
        let ghost outv = out.deep_view();
        if !is_denied(ids[i].as_str()) {
            out.push(ids[i].clone());
            proof {
                assert(out.deep_view() =~= outv.push(idsv[i as int]));
            }
        }
        proof {
            assert(idsv.take(i as int + 1).drop_last() =~= idsv.take(i as int));
            assert(idsv.take(i as int + 1).last() == idsv[i as int]);
            if !spec_denied(idsv[i as int]) {
                assert(out.deep_view() =~= spec_keep(idsv.take(i as int)).push(idsv[i as int]));
                assert(spec_keep(idsv.take(i as int + 1)) =~= spec_keep(idsv.take(i as int)).push(
                    idsv[i as int],
                ));
            }
        }
        i += 1;
    }
    proof {
        assert(idsv.take(n as int) =~= idsv);
    }
    out
}

/// Resolves `symbol` against the index and applies the denylist: the
/// uppercased symbol's identifier list, with derivative variants dropped and
/// order kept, or an unsupported-symbol error when the index has no group
/// for it.
pub fn plan_symbol(index: &SymbolIndex, symbol: &str) -> (r: Result<Vec<String>, PriceError>)
    requires
        index.wf(),
    ensures
        match r {
            Ok(ids) => {
                &&& spec_lookup(index@, upper_of(symbol@)) is Some
                &&& ids.deep_view() == spec_keep(
                    spec_lookup(index@, upper_of(symbol@)).unwrap(),
                )
            },
            Err(e) => {
                &&& e == PriceError::UnsupportedSymbol
                &&& spec_lookup(index@, upper_of(symbol@)) is None
            },
        },
{
    match index.lookup(symbol) {
        Some(ids) => Ok(filter_identifiers(ids)),
        None => Err(PriceError::UnsupportedSymbol),
    }
}

/// The market capitalisation an asset is ranked by; an absent figure ranks
/// lowest.
pub open spec fn cap_of(a: AssetDetail) -> int {
    match a.market_cap_usd {
        Some(c) => c as int,
        None => 0,
    }
}

/// Market capitalisations never increase along the sequence.
pub open spec fn sorted_desc(s: Seq<AssetDetail>) -> bool {
    forall|i: int, j: int|
        0 <= i < j < s.len() ==> cap_of(#[trigger] s[i]) >= cap_of(#[trigger] s[j])
}

/// Stable insertion: `x` goes after every element ranking at least as high.
pub open spec fn insert_desc(s: Seq<AssetDetail>, x: AssetDetail) -> Seq<AssetDetail>
    decreases s.len(),
{
    if s.len() == 0 {
        seq![x]
    } else if cap_of(s.last()) >= cap_of(x) {
        s.push(x)
    } else {
        insert_desc(s.drop_last(), x).push(s.last())
    }
}

/// Stable sort, descending by market capitalisation.
pub open spec fn sort_desc(s: Seq<AssetDetail>) -> Seq<AssetDetail>
    decreases s.len(),
{
    if s.len() == 0 {
        Seq::empty()
    } else {
        insert_desc(sort_desc(s.drop_last()), s.last())
    }
}

proof fn lemma_insert_desc_at(s: Seq<AssetDetail>, x: AssetDetail, p: int)
    requires
        sorted_desc(s),
        0 <= p <= s.len(),
        forall|k: int| 0 <= k < p ==> cap_of(#[trigger] s[k]) >= cap_of(x),
        p < s.len() ==> cap_of(s[p]) < cap_of(x),
    ensures
        insert_desc(s, x) == s.insert(p, x),
        sorted_desc(s.insert(p, x)),
    decreases s.len(),
{
    if s.len() == 0 {
        assert(insert_desc(s, x) =~= s.insert(0, x));
    } else if cap_of(s.last()) >= cap_of(x) {
        assert(p == s.len()) by {
            if p < s.len() {
                assert(cap_of(s[p]) >= cap_of(s[s.len() - 1]));
            }
        }
        assert(insert_desc(s, x) =~= s.insert(p, x));
    } else {
        assert(p < s.len()) by {
            if p == s.len() {
                assert(cap_of(s[s.len() - 1]) >= cap_of(x));
            }
        }
        assert(sorted_desc(s.drop_last()));
        lemma_insert_desc_at(s.drop_last(), x, p);
        assert(insert_desc(s, x) =~= s.insert(p, x));
    }
    let t = s.insert(p, x);
    assert forall|i: int, j: int| 0 <= i < j < t.len() implies cap_of(#[trigger] t[i]) >= cap_of(
        #[trigger] t[j],
    ) by {
        if i < p {
            assert(t[i] == s[i]);
        } else if i == p {
            assert(t[i] == x);
        } else {
            assert(t[i] == s[i - 1]);
        }
        if j < p {
            assert(t[j] == s[j]);
        } else if j == p {
            assert(t[j] == x);
        } else {
            assert(t[j] == s[j - 1]);
        }
    }
}

/// Whether `a` ranks at least as high as `b`.
fn cap_at_least(a: &AssetDetail, b: &AssetDetail) -> (r: bool)
    ensures
        r == (cap_of(*a) >= cap_of(*b)),
{
    let ca: u128 = match a.market_cap_usd {
        Some(c) => c,
        None => 0,
    };
    let cb: u128 = match b.market_cap_usd {
        Some(c) => c,
        None => 0,
    };
    ca >= cb
}

fn find_pos_desc(v: &Vec<AssetDetail>, x: &AssetDetail) -> (p: usize)
    requires
        sorted_desc(v@),
    ensures
        p <= v@.len(),
        forall|k: int| 0 <= k < p ==> cap_of(#[trigger] v@[k]) >= cap_of(*x),
        p < v@.len() ==> cap_of(v@[p as int]) < cap_of(*x),
{
    let n = v.len();
    let mut p: usize = 0;
    while p < n
        invariant
            n == v@.len(),
            p <= n,
            forall|k: int| 0 <= k < p ==> cap_of(#[trigger] v@[k]) >= cap_of(*x),
        decreases n - p,
    {
        if !cap_at_least(&v[p], x) {
            return p;
        }
        p += 1;
    }
    p
}

fn insert_asset_desc(v: &mut Vec<AssetDetail>, x: AssetDetail)
    requires
        sorted_desc(old(v)@),
    ensures
        final(v)@ == insert_desc(old(v)@, x),
        sorted_desc(final(v)@),
        forall|k: int|
            0 <= k < final(v)@.len() ==> final(v)@[k] == x || old(v)@.contains(
                #[trigger] final(v)@[k],
            ),
{
    let ghost v0 = v@;
    let p = find_pos_desc(v, &x);
    proof {
        lemma_insert_desc_at(v0, x, p as int);
    }
    v.insert(p, x);
    proof {
        assert forall|k: int| 0 <= k < v@.len() implies v@[k] == x || v0.contains(
            #[trigger] v@[k],
        ) by {
            if k < p {
                assert(v@[k] == v0[k]);
            } else if k > p {
                assert(v@[k] == v0[k - 1]);
            }
        }
    }
}

/// Sorts the assets descending by market capitalisation, equal ranks keeping
/// their order.
pub fn sort_assets_desc(assets: Vec<AssetDetail>) -> (r: Vec<AssetDetail>)
    ensures
        r@ == sort_desc(assets@),
        sorted_desc(r@),
        forall|k: int| 0 <= k < r@.len() ==> assets@.contains(#[trigger] r@[k]),
{
    let ghost orig = assets@;
    let mut rest = assets;
    let mut out: Vec<AssetDetail> = Vec::new();
    let ghost mut done: int = 0;
    while rest.len() > 0
        invariant
            0 <= done <= orig.len(),
            done == orig.len() - rest@.len(),
            rest@ == orig.skip(done),
            out@ == sort_desc(orig.take(done)),
            sorted_desc(out@),
            forall|k: int| 0 <= k < out@.len() ==> orig.take(done).contains(#[trigger] out@[k]),
        decreases rest@.len(),
    {
        let ghost outv = out@;
        let x = rest.remove(0);
        proof {
            assert(orig.skip(done)[0] == orig[done]);
            assert(orig.skip(done).remove(0) =~= orig.skip(done + 1));
        }
        insert_asset_desc(&mut out, x);
        proof {
            assert(orig.take(done + 1).drop_last() =~= orig.take(done));
            assert(orig.take(done + 1).last() == orig[done]);
            assert forall|k: int| 0 <= k < out@.len() implies orig.take(done + 1).contains(
                #[trigger] out@[k],
            ) by {
                if out@[k] == x {
                    assert(orig.take(done + 1)[done] == out@[k]);
                } else {
                    assert(outv.contains(out@[k]));
                    let j = choose|j: int| 0 <= j < outv.len() && outv[j] == out@[k];
                    assert(orig.take(done).contains(outv[j]));
                    let m = choose|m: int|
                        0 <= m < orig.take(done).len() && orig.take(done)[m] == outv[j];
                    assert(orig.take(done + 1)[m] == out@[k]);
                }
            }
            done = done + 1;
        }
    }
    proof {
        assert(orig.take(done) =~= orig);
    }
    out
}

/// The rank a ticker is sorted by: its converted price, with an absent
/// price ranking above every present one.
pub open spec fn price_rank(t: TickerInfo) -> int {
    match t.price_usd {
        Some(p) => p as int,
        None => u128::MAX as int + 1,
    }
}

/// Prices never decrease along the sequence; absent prices sit at the end.
pub open spec fn sorted_asc(s: Seq<TickerInfo>) -> bool {
    forall|i: int, j: int|
        0 <= i < j < s.len() ==> price_rank(#[trigger] s[i]) <= price_rank(#[trigger] s[j])
}

/// Stable insertion: `x` goes after every element ranking at most as high.
pub open spec fn insert_asc(s: Seq<TickerInfo>, x: TickerInfo) -> Seq<TickerInfo>
    decreases s.len(),
{
    if s.len() == 0 {
        seq![x]
    } else if price_rank(s.last()) <= price_rank(x) {
        s.push(x)
    } else {
        insert_asc(s.drop_last(), x).push(s.last())
    }
}

/// Stable sort, ascending by converted price.
pub open spec fn sort_asc(s: Seq<TickerInfo>) -> Seq<TickerInfo>
    decreases s.len(),
{
    if s.len() == 0 {
        Seq::empty()
    } else {
        insert_asc(sort_asc(s.drop_last()), s.last())
    }
}

proof fn lemma_insert_asc_at(s: Seq<TickerInfo>, x: TickerInfo, p: int)
    requires
        sorted_asc(s),
        0 <= p <= s.len(),
        forall|k: int| 0 <= k < p ==> price_rank(#[trigger] s[k]) <= price_rank(x),
        p < s.len() ==> price_rank(s[p]) > price_rank(x),
    ensures
        insert_asc(s, x) == s.insert(p, x),
        sorted_asc(s.insert(p, x)),
    decreases s.len(),
{
    if s.len() == 0 {
        assert(insert_asc(s, x) =~= s.insert(0, x));
    } else if price_rank(s.last()) <= price_rank(x) {
        assert(p == s.len()) by {
            if p < s.len() {
                assert(price_rank(s[p]) <= price_rank(s[s.len() - 1]));
            }
        }
        assert(insert_asc(s, x) =~= s.insert(p, x));
    } else {
        assert(p < s.len()) by {
            if p == s.len() {
                assert(price_rank(s[s.len() - 1]) <= price_rank(x));
            }
        }
        assert(sorted_asc(s.drop_last()));
        lemma_insert_asc_at(s.drop_last(), x, p);
        assert(insert_asc(s, x) =~= s.insert(p, x));
    }
    let t = s.insert(p, x);
    assert forall|i: int, j: int| 0 <= i < j < t.len() implies price_rank(#[trigger] t[i])
        <= price_rank(#[trigger] t[j]) by {
        if i < p {
            assert(t[i] == s[i]);
        } else if i == p {
            assert(t[i] == x);
        } else {
            assert(t[i] == s[i - 1]);
        }
        if j < p {
            assert(t[j] == s[j]);
        } else if j == p {
            assert(t[j] == x);
        } else {
            assert(t[j] == s[j - 1]);
        }
    }
}

/// Whether `a` ranks at most as high as `b`.
fn rank_at_most(a: &TickerInfo, b: &TickerInfo) -> (r: bool)
    ensures
        r == (price_rank(*a) <= price_rank(*b)),
{
    match (a.price_usd, b.price_usd) {
        (Some(pa), Some(pb)) => pa <= pb,
        (Some(_), None) => true,
        (None, Some(_)) => false,
        (None, None) => true,
    }
}

fn find_pos_asc(v: &Vec<TickerInfo>, x: &TickerInfo) -> (p: usize)
    requires
        sorted_asc(v@),
    ensures
        p <= v@.len(),
        forall|k: int| 0 <= k < p ==> price_rank(#[trigger] v@[k]) <= price_rank(*x),
        p < v@.len() ==> price_rank(v@[p as int]) > price_rank(*x),
{
    let n = v.len();
    let mut p: usize = 0;
    while p < n
        invariant
            n == v@.len(),
            p <= n,
            forall|k: int| 0 <= k < p ==> price_rank(#[trigger] v@[k]) <= price_rank(*x),
        decreases n - p,
    {
        if !rank_at_most(&v[p], x) {
            return p;
        }
        p += 1;
    }
    p
}

fn insert_ticker_asc(v: &mut Vec<TickerInfo>, x: TickerInfo)
    requires
        sorted_asc(old(v)@),
    ensures
        final(v)@ == insert_asc(old(v)@, x),
        sorted_asc(final(v)@),
        forall|k: int|
            0 <= k < final(v)@.len() ==> final(v)@[k] == x || old(v)@.contains(
                #[trigger] final(v)@[k],
            ),
{
    let ghost v0 = v@;
    let p = find_pos_asc(v, &x);
    proof {
        lemma_insert_asc_at(v0, x, p as int);
    }
    v.insert(p, x);
    proof {
        assert forall|k: int| 0 <= k < v@.len() implies v@[k] == x || v0.contains(
            #[trigger] v@[k],
        ) by {
            if k < p {
                assert(v@[k] == v0[k]);
            } else if k > p {
                assert(v@[k] == v0[k - 1]);
            }
        }
    }
}

/// Sorts the tickers ascending by converted price, entries without a price
/// at the end, equal ranks keeping their order.
pub fn sort_tickers_asc(tickers: Vec<TickerInfo>) -> (r: Vec<TickerInfo>)
    ensures
        r@ == sort_asc(tickers@),
        sorted_asc(r@),
        forall|k: int| 0 <= k < r@.len() ==> tickers@.contains(#[trigger] r@[k]),
{
    let ghost orig = tickers@;
    let mut rest = tickers;
    let mut out: Vec<TickerInfo> = Vec::new();
    let ghost mut done: int = 0;
    while rest.len() > 0
        invariant
            0 <= done <= orig.len(),
            done == orig.len() - rest@.len(),
            rest@ == orig.skip(done),
            out@ == sort_asc(orig.take(done)),
            sorted_asc(out@),
            forall|k: int| 0 <= k < out@.len() ==> orig.take(done).contains(#[trigger] out@[k]),
        decreases rest@.len(),
    {
        let ghost outv = out@;
        let x = rest.remove(0);
        proof {
            assert(orig.skip(done)[0] == orig[done]);
            assert(orig.skip(done).remove(0) =~= orig.skip(done + 1));
        }
        insert_ticker_asc(&mut out, x);
        proof {
            assert(orig.take(done + 1).drop_last() =~= orig.take(done));
            assert(orig.take(done + 1).last() == orig[done]);
            assert forall|k: int| 0 <= k < out@.len() implies orig.take(done + 1).contains(
                #[trigger] out@[k],
            ) by {
                if out@[k] == x {
                    assert(orig.take(done + 1)[done] == out@[k]);
                } else {
                    assert(outv.contains(out@[k]));
                    let j = choose|j: int| 0 <= j < outv.len() && outv[j] == out@[k];
                    assert(orig.take(done).contains(outv[j]));
                    let m = choose|m: int|
                        0 <= m < orig.take(done).len() && orig.take(done)[m] == outv[j];
                    assert(orig.take(done + 1)[m] == out@[k]);
                }
            }
            done = done + 1;
        }
    }
    proof {
        assert(orig.take(done) =~= orig);
    }
    out
}

/// A copy of the ticker list, equal element by element.
fn clone_tickers(ts: &Vec<TickerInfo>) -> (r: Vec<TickerInfo>)
    ensures
        r@ == ts@,
{
    let mut out: Vec<TickerInfo> = Vec::new();
    let n = ts.len();
    let mut i: usize = 0;
    while i < n
        invariant
            n == ts@.len(),
            i <= n,
            out@ == ts@.take(i as int),
        decreases n - i,
    {
        out.push(ts[i].clone());
        proof {
            assert(out@ =~= ts@.take(i as int + 1));
        }
        i += 1;
    }
    proof {
        assert(ts@.take(n as int) =~= ts@);
    }
    out
}

/// The first sorted ticker names an exchange and a price, so it decides the
/// cheapest-exchange figures.
pub open spec fn first_usable(sorted: Seq<TickerInfo>) -> bool {
    sorted.len() > 0 && sorted[0].exchange is Some && sorted[0].price_usd is Some
}

/// The exchange a summary shows: the cheapest ticker's, or "Unknown" when no
/// usable ticker exists.
pub open spec fn spec_cheapest_exchange(sorted: Seq<TickerInfo>) -> Seq<char> {
    if first_usable(sorted) {
        sorted[0].exchange.unwrap()@
    } else {
        "Unknown"@
    }
}

/// The price a summary shows: the cheapest ticker's converted price, or the
/// asset's own reported price when no usable ticker exists.
pub open spec fn spec_cheapest_price(sorted: Seq<TickerInfo>, fallback: u128) -> u128 {
    if first_usable(sorted) {
        sorted[0].price_usd.unwrap()
    } else {
        fallback
    }
}

/// A ticker enters the secondary table only with exchange, price and volume
/// all present.
pub open spec fn complete_ticker(t: TickerInfo) -> bool {
    t.exchange is Some && t.price_usd is Some && t.volume_usd is Some
}

/// The table cells for one ticker: exchange name, formatted price,
/// formatted volume.
pub open spec fn spec_row(t: TickerInfo) -> Seq<Seq<char>> {
    seq![
        t.exchange.unwrap()@,
        spec_currency(t.price_usd.unwrap()),
        spec_currency(t.volume_usd.unwrap()),
    ]
}

/// The rows the given tickers yield, skipping incomplete ones.
pub open spec fn spec_rows(s: Seq<TickerInfo>) -> Seq<Seq<Seq<char>>>
    decreases s.len(),
{
    if s.len() == 0 {
        Seq::empty()
    } else {
        spec_rows(s.drop_last()) + (if complete_ticker(s.last()) {
            seq![spec_row(s.last())]
        } else {
            Seq::empty()
        })
    }
}

/// The secondary table: rows for the first five sorted tickers, incomplete
/// ones skipped.
pub open spec fn spec_rows_top(sorted: Seq<TickerInfo>) -> Seq<Seq<Seq<char>>> {
    spec_rows(
        sorted.take(
            if sorted.len() < 5 {
                sorted.len() as int
            } else {
                5
            },
        ),
    )
}

/// Builds the secondary table for already-sorted tickers.
fn build_rows(sorted: &Vec<TickerInfo>) -> (rows: Vec<Vec<String>>)
    requires
        forall|k: int| 0 <= k < sorted@.len() ==> ticker_bounded(#[trigger] sorted@[k]),
    ensures
        rows.deep_view() == spec_rows_top(sorted@),
{
    let fmt = DisplayFormatter::new();
    let n = sorted.len();
    let top = if n < 5 {
        n
    } else {
        5
    };
    let mut rows: Vec<Vec<String>> = Vec::new();
    let mut i: usize = 0;
    while i < top
        invariant
            top <= n,
            n == sorted@.len(),
            i <= top,
            forall|k: int| 0 <= k < sorted@.len() ==> ticker_bounded(#[trigger] sorted@[k]),
            rows.deep_view() == spec_rows(sorted@.take(i as int)),
        decreases top - i,
    {
        let ghost rowsv = rows.deep_view();
        let t = &sorted[i];
        match (&t.exchange, t.price_usd, t.volume_usd) {
            (Some(name), Some(p), Some(v)) => {
                let mut row: Vec<String> = Vec::new();
                row.push(name.clone());
                row.push(fmt.format_currency(p));
                row.push(fmt.format_currency(v));
                let ghost rowdv = row.deep_view();
                proof {
                    assert(rowdv =~= spec_row(sorted@[i as int]));
                }
                rows.push(row);
                proof {
                    assert(rows.deep_view() =~= rowsv.push(rowdv));
                }
            },
            _ => {},
        }
        proof {
            assert(sorted@.take(i as int + 1).drop_last() =~= sorted@.take(i as int));
            assert(sorted@.take(i as int + 1).last() == sorted@[i as int]);
            if complete_ticker(sorted@[i as int]) {
                assert(rows.deep_view() =~= spec_rows(sorted@.take(i as int)).push(
                    spec_row(sorted@[i as int]),
                ));
                assert(spec_rows(sorted@.take(i as int + 1)) =~= spec_rows(
                    sorted@.take(i as int),
                ).push(spec_row(sorted@[i as int])));
            }
        }
        i += 1;
    }
    proof {
        if n < 5 {
            assert(sorted@.take(top as int) =~= sorted@.take(sorted@.len() as int));
        }
    }
    rows
}

/// The figures a summary shows for an asset, given the uppercased symbol:
/// the cheapest usable ticker decides exchange and price, the asset's own
/// market data the rest.
pub open spec fn summary_matches(c: CoinSummary, sym: Seq<char>, a: AssetDetail) -> bool {
    let sorted = sort_asc(a.tickers@);
    &&& c.symbol@ == sym
    &&& c.id@ == a.id@
    &&& c.exchange@ == spec_cheapest_exchange(sorted)
    &&& c.price == spec_cheapest_price(sorted, a.price_usd.unwrap())
    &&& c.market_cap == a.market_cap_usd.unwrap()
    &&& c.volume_24h == a.volume_24h_usd.unwrap()
    &&& c.price_change_24h == a.change_24h.unwrap()
}

/// Summarises one fetched asset: `None` when a required figure is missing,
/// otherwise the summary (priced at the cheapest exchange) and the secondary
/// table of its sorted tickers.
pub fn summarize_asset(symbol: &str, asset: &AssetDetail) -> (r: Option<
    (CoinSummary, Vec<Vec<String>>),
>)
    requires
        asset_bounded(*asset),
    ensures
        match r {
            Some(pair) => {
                &&& is_complete(*asset)
                &&& summary_matches(pair.0, upper_of(symbol@), *asset)
                &&& pair.1.deep_view() == spec_rows_top(sort_asc(asset.tickers@))
            },
            None => !is_complete(*asset),
        },
{
    let (price, cap, vol, change) = match (
        asset.price_usd,
        asset.market_cap_usd,
        asset.volume_24h_usd,
        asset.change_24h,
    ) {
        (Some(p), Some(c), Some(v), Some(ch)) => (p, c, v, ch),
        _ => {
            return None;
        },
    };
    let sorted = sort_tickers_asc(clone_tickers(&asset.tickers));
    proof {
        assert forall|k: int| 0 <= k < sorted@.len() implies ticker_bounded(
            #[trigger] sorted@[k],
        ) by {
            assert(asset.tickers@.contains(sorted@[k]));
            let m = choose|m: int|
                0 <= m < asset.tickers@.len() && asset.tickers@[m] == sorted@[k];
            assert(ticker_bounded(asset.tickers@[m]));
        }
    }
    let pick: Option<(String, u128)> = if sorted.len() > 0 {
        match (&sorted[0].exchange, sorted[0].price_usd) {
            (Some(name), Some(p)) => Some((name.clone(), p)),
            _ => None,
        }
    } else {
        None
    };
    let (exchange, cheapest) = match pick {
        Some(pair) => pair,
        None => (String::from_str("Unknown"), price),
    };
    let rows = build_rows(&sorted);
    let summary = CoinSummary {
        symbol: to_upper(symbol),
        id: asset.id.clone(),
        exchange,
        price: cheapest,
        market_cap: cap,
        volume_24h: vol,
        price_change_24h: change,
    };
    Some((summary, rows))
}

/// A display-ready asset: its summary and its secondary exchange table.
pub struct RenderedAsset {
    pub summary: CoinSummary,
    pub rows: Vec<Vec<String>>,
}

/// The fetched assets that hold every required figure, in fetch order.
pub open spec fn spec_select(s: Seq<AssetDetail>) -> Seq<AssetDetail>
    decreases s.len(),
{
    if s.len() == 0 {
        Seq::empty()
    } else {
        spec_select(s.drop_last()) + (if is_complete(s.last()) {
            seq![s.last()]
        } else {
            Seq::empty()
        })
    }
}

/// The whole rendering stage: keeps the assets with complete figures, ranks
/// them descending by market capitalisation, and emits each one's summary
/// and exchange table in that order.
pub fn build_summaries(symbol: &str, details: Vec<AssetDetail>) -> (r: Vec<RenderedAsset>)
    requires
        forall|k: int| 0 <= k < details@.len() ==> asset_bounded(#[trigger] details@[k]),
    ensures
        r@.len() == sort_desc(spec_select(details@)).len(),
        forall|i: int|
            0 <= i < r@.len() ==> {
                let a = sort_desc(spec_select(details@))[i];
                &&& summary_matches((#[trigger] r@[i]).summary, upper_of(symbol@), a)
                &&& r@[i].rows.deep_view() == spec_rows_top(sort_asc(a.tickers@))
            },
{
    let ghost orig = details@;
    let mut rest = details;
    let mut selected: Vec<AssetDetail> = Vec::new();
    let ghost mut done: int = 0;
    while rest.len() > 0
        invariant
            0 <= done <= orig.len(),
            done == orig.len() - rest@.len(),
            rest@ == orig.skip(done),
            forall|k: int| 0 <= k < orig.len() ==> asset_bounded(#[trigger] orig[k]),
            selected@ == spec_select(orig.take(done)),
            forall|k: int|
                0 <= k < selected@.len() ==> asset_bounded(#[trigger] selected@[k]) && is_complete(
                    selected@[k],
                ),
        decreases rest@.len(),
    {
        let ghost selv = selected@;
        let x = rest.remove(0);
        proof {
            assert(orig.skip(done)[0] == orig[done]);
            assert(orig.skip(done).remove(0) =~= orig.skip(done + 1));
        }
        let keep = x.price_usd.is_some() && x.market_cap_usd.is_some() && x.volume_24h_usd.is_some()
            && x.change_24h.is_some();
        if keep {
            selected.push(x);
            proof {
                assert(selected@ =~= selv.push(orig[done]));
            }
        }
        proof {
            assert(orig.take(done + 1).drop_last() =~= orig.take(done));
            assert(orig.take(done + 1).last() == orig[done]);
            if is_complete(orig[done]) {
                assert(spec_select(orig.take(done + 1)) =~= spec_select(orig.take(done)).push(
                    orig[done],
                ));
            }
            done = done + 1;
        }
    }
    proof {
        assert(orig.take(done) =~= orig);
    }
    let sorted = sort_assets_desc(selected);
    proof {
        assert forall|k: int| 0 <= k < sorted@.len() implies asset_bounded(#[trigger] sorted@[k])
            && is_complete(sorted@[k]) by {
            let ghost selall = spec_select(orig);
            assert(selall.contains(sorted@[k]));
        }
    }
    let mut out: Vec<RenderedAsset> = Vec::new();
    let n = sorted.len();
    let mut i: usize = 0;
    while i < n
        invariant
            n == sorted@.len(),
            i <= n,
            sorted@ == sort_desc(spec_select(orig)),
            forall|k: int|
                0 <= k < sorted@.len() ==> asset_bounded(#[trigger] sorted@[k]) && is_complete(
                    sorted@[k],
                ),
            out@.len() == i,
            forall|j: int|
                0 <= j < i ==> {
                    let a = sorted@[j];
                    &&& summary_matches((#[trigger] out@[j]).summary, upper_of(symbol@), a)
                    &&& out@[j].rows.deep_view() == spec_rows_top(sort_asc(a.tickers@))
                },
        decreases n - i,
    {
        match summarize_asset(symbol, &sorted[i]) {
            Some(pair) => {
                out.push(RenderedAsset { summary: pair.0, rows: pair.1 });
            },
            None => {
                proof {
                    assert(false);
                }
            },
        }
        i += 1;
    }
    out
}

} // verus!
