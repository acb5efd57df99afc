//! The table rows of the operator pages: orders, fills, positions, daily
//! bar freshness and the watchlist, each cell as the page shows it. Times
//! arrive already formatted, and a trend cell arrives as drawn markup.

use vstd::prelude::*;
use crate::decimal::{Dec, dec_le, dec_of_int, decimal_checked_div, decimal_checked_mul, decimal_text};
use crate::runtime::web::{
    display_amount, escaped, esc, freshness, freshness_class, krw_int, krw_text, money, pnl_span, pnl_span_text,
    position_figures, position_spec, status_pill, status_pill_text, symbol_label, symbol_label_text,
};
use crate::storage::StoredPosition;
use crate::text::{i64_text, int_text, text_equal};

verus! {

/// The texts of a row's cells.
pub open spec fn cell_texts(r: Seq<String>) -> Seq<Seq<char>> {
    Seq::new(r.len(), |i: int| r[i]@)
}

/// An optional amount as the pages show it: `—` when absent.
pub open spec fn money_text(value: Option<Dec>) -> Seq<char> {
    match value {
        None => "—"@,
        Some(d) => display_amount(decimal_text(d)),
    }
}

/// Buy or sell, coloured: any side other than `sell` reads as a buy.
pub open spec fn side_cell_text(side: Seq<char>) -> Seq<char> {
    if side == "sell"@ {
        "<span class=\"side-sell\">매도</span>"@
    } else {
        "<span class=\"side-buy\">매수</span>"@
    }
}

pub fn side_cell(side: &str) -> (r: String)
    ensures
        r@ == side_cell_text(side@),
{
    proof {
        reveal_strlit("sell");
        reveal_strlit("<span class=\"side-sell\">매도</span>");
        reveal_strlit("<span class=\"side-buy\">매수</span>");
    }
    if text_equal(side, "sell") {
        String::from_str("<span class=\"side-sell\">매도</span>")
    } else {
        String::from_str("<span class=\"side-buy\">매수</span>")
    }
}

/// An order-history row: time, symbol, side, quantity, limit price, status.
pub open spec fn order_cells(
    at: Seq<char>,
    symbol: Seq<char>,
    side: Seq<char>,
    quantity: i64,
    limit_price: Option<Dec>,
    status: Seq<char>,
) -> Seq<Seq<char>> {
    seq![
        at,
        symbol_label_text(symbol),
        side_cell_text(side),
        int_text(quantity as int),
        money_text(limit_price),
        status_pill_text(status),
    ]
}

pub fn order_row(at: &str, symbol: &str, side: &str, quantity: i64, limit_price: &Option<Dec>, status: &str) -> (r: Vec<String>)
    ensures
        cell_texts(r@) == order_cells(at@, symbol@, side@, quantity, *limit_price, status@),
{
    let r = vec![
        String::from_str(at),
        symbol_label(symbol),
        side_cell(side),
        i64_text(quantity),
        money(limit_price),
        status_pill(status),
    ];
    assert(cell_texts(r@) =~= order_cells(at@, symbol@, side@, quantity, *limit_price, status@));
    r
}

/// A fill's amount, `price × quantity` in whole won; `—` on overflow.
pub open spec fn fill_amount_text(price: Dec, quantity: i64) -> Seq<char> {
    match decimal_checked_mul(price, dec_of_int(quantity as int)) {
        Some(v) => krw_text(v),
        None => "—"@,
    }
}

/// A fill-history row: time, symbol, side, quantity, price, amount.
pub open spec fn fill_cells(at: Seq<char>, symbol: Seq<char>, side: Seq<char>, quantity: i64, price: Dec) -> Seq<Seq<char>> {
    seq![
        at,
        symbol_label_text(symbol),
        side_cell_text(side),
        int_text(quantity as int),
        money_text(Some(price)),
        fill_amount_text(price, quantity),
    ]
}

pub fn fill_row(at: &str, symbol: &str, side: &str, quantity: i64, price: &Dec) -> (r: Vec<String>)
    ensures
        cell_texts(r@) == fill_cells(at@, symbol@, side@, quantity, *price),
{
    proof {
        reveal_strlit("—");
    }
    let amount = match price.checked_mul(&Dec::from_i64(quantity)) {
        Some(v) => krw_int(&v),
        None => String::from_str("—"),
    };
    let r = vec![
        String::from_str(at),
        symbol_label(symbol),
        side_cell(side),
        i64_text(quantity),
        money(&Some(*price)),
        amount,
    ];
    assert(cell_texts(r@) =~= fill_cells(at@, symbol@, side@, quantity, *price));
    r
}

/// The profit cell: the coloured amount and its percent of cost (`0` with
/// no cost).
pub open spec fn pnl_cell_text(pnl: Dec, pct: Option<Dec>) -> Seq<char> {
    pnl_span_text(pnl) + " <small>("@ + (match pct {
        Some(x) => decimal_text(x),
        None => "0"@,
    }) + "%)</small>"@
}

/// A held-position row: symbol, trend, quantity, average price, mark,
/// mark value (at cost without a mark), profit; dashes where the exact
/// figures overflow.
pub open spec fn position_cells(p: StoredPosition, prices: Seq<(String, Dec)>, trend: Seq<char>) -> Seq<Seq<char>> {
    match position_spec(p, prices) {
        Some((mark, value, pnl, _, pct)) => seq![
            symbol_label_text(p.symbol@),
            trend,
            int_text(p.quantity as int),
            money_text(Some(p.average_price)),
            money_text(mark),
            decimal_text(value),
            pnl_cell_text(pnl, pct),
        ],
        None => seq![
            symbol_label_text(p.symbol@),
            trend,
            int_text(p.quantity as int),
            money_text(Some(p.average_price)),
            "—"@,
            "—"@,
            "—"@,
        ],
    }
}

pub fn position_row(p: &StoredPosition, prices: &Vec<(String, Dec)>, trend: &str) -> (r: Vec<String>)
    ensures
        cell_texts(r@) == position_cells(*p, prices@, trend@),
{
    proof {
        reveal_strlit("—");
        reveal_strlit(" <small>(");
        reveal_strlit("0");
        reveal_strlit("%)</small>");
    }
    let r = match position_figures(p, prices) {
        Some(f) => {
            let mut profit = pnl_span(&f.pnl);
            profit.append(" <small>(");
            let pct = match f.pnl_pct {
                Some(x) => x.to_text(),
                None => String::from_str("0"),
            };
            profit.append(pct.as_str());
            profit.append("%)</small>");
            vec![
                symbol_label(p.symbol.as_str()),
                String::from_str(trend),
                i64_text(p.quantity),
                money(&Some(p.average_price)),
                money(&f.mark),
                f.value.to_text(),
                profit,
            ]
        },
        None => vec![
            symbol_label(p.symbol.as_str()),
            String::from_str(trend),
            i64_text(p.quantity),
            money(&Some(p.average_price)),
            String::from_str("—"),
            String::from_str("—"),
            String::from_str("—"),
        ],
    };
    assert(cell_texts(r@) =~= position_cells(*p, prices@, trend@));
    r
}

/// Whether a position's trend is drawn rising: its mark at or above its
/// average price (no mark draws falling).
pub fn position_rising(p: &StoredPosition, prices: &Vec<(String, Dec)>) -> (r: bool)
    ensures
        r == match position_spec(*p, prices@) {
            Some((_, _, _, up, _)) => up,
            None => false,
        },
{
    match position_figures(p, prices) {
        Some(f) => f.rising,
        None => false,
    }
}

/// The reading of a freshness class.
pub open spec fn freshness_label(class: Seq<char>) -> Seq<char> {
    if class == "fresh"@ {
        "최신"@
    } else if class == "stale"@ {
        "갱신 필요"@
    } else {
        "오래됨"@
    }
}

/// The freshness pill of a bar date against now.
pub open spec fn fresh_pill_text(ts: Seq<char>, now: Seq<char>) -> Seq<char> {
    "<span class=\"fresh-pill "@ + freshness(ts, now) + "\">"@ + freshness_label(freshness(ts, now)) + "</span>"@
}

fn fresh_pill(ts: &str, now: &str) -> (r: String)
    ensures
        r@ == fresh_pill_text(ts@, now@),
{
    proof {
        reveal_strlit("fresh");
        reveal_strlit("stale");
        reveal_strlit("old");
        reveal_strlit("최신");
        reveal_strlit("갱신 필요");
        reveal_strlit("오래됨");
        reveal_strlit("<span class=\"fresh-pill ");
        reveal_strlit("\">");
        reveal_strlit("</span>");
    }
    let class = freshness_class(ts, now);
    let label = if text_equal(class, "fresh") {
        "최신"
    } else if text_equal(class, "stale") {
        "갱신 필요"
    } else {
        "오래됨"
    };
    let mut r = String::from_str("<span class=\"fresh-pill ");
    r.append(class);
    r.append("\">");
    r.append(label);
    r.append("</span>");
    r
}

/// A daily-bar freshness row: symbol, newest bar date with its pill.
pub open spec fn candle_cells(symbol: Seq<char>, ts: Seq<char>, now: Seq<char>) -> Seq<Seq<char>> {
    seq![symbol_label_text(symbol), escaped(ts) + " "@ + fresh_pill_text(ts, now)]
}

pub fn candle_row(symbol: &str, ts: &str, now: &str) -> (r: Vec<String>)
    ensures
        cell_texts(r@) == candle_cells(symbol@, ts@, now@),
{
    proof {
        reveal_strlit(" ");
    }
    let mut when = esc(ts);
    when.append(" ");
    let pill = fresh_pill(ts, now);
    when.append(pill.as_str());
    let r = vec![symbol_label(symbol), when];
    assert(cell_texts(r@) =~= candle_cells(symbol@, ts@, now@));
    r
}

/// Whether a watched symbol's trend is drawn rising: its latest price at
/// or above the last stored tick (1e-4 KRW), rising when either is missing.
pub open spec fn watch_rising_spec(last: Option<Dec>, last_tick: Option<i64>) -> bool {
    match (last, last_tick) {
        (Some(price), Some(tick)) => match decimal_checked_div(dec_of_int(tick as int), dec_of_int(10_000)) {
            Some(t) => dec_le(t, price),
            None => true,
        },
        _ => true,
    }
}

pub fn watch_rising(last: &Option<Dec>, last_tick: Option<i64>) -> (r: bool)
    ensures
        r == watch_rising_spec(*last, last_tick),
{
    match (last, last_tick) {
        (Some(price), Some(tick)) => match Dec::from_i64(tick).checked_div(&Dec::from_i64(10_000)) {
            Some(t) => t.le(price),
            None => true,
        },
        _ => true,
    }
}

/// A watchlist row: symbol, latest price, bar freshness (or no bars),
/// trend, and the remove button.
pub open spec fn watch_cells(
    code: Seq<char>,
    last: Option<Dec>,
    newest_bar: Option<Seq<char>>,
    now: Seq<char>,
    trend: Seq<char>,
) -> Seq<Seq<char>> {
    seq![
        symbol_label_text(code),
        money_text(last),
        match newest_bar {
            Some(ts) => fresh_pill_text(ts, now),
            None => "<span class=\"fresh-pill old\">봉 없음</span>"@,
        },
        trend,
        "<button onclick=\"wlRemove('"@ + escaped(code) + "')\">제거</button>"@,
    ]
}

pub fn watch_row(code: &str, last: &Option<Dec>, newest_bar: Option<&str>, now: &str, trend: &str) -> (r: Vec<String>)
    ensures
        cell_texts(r@) == watch_cells(code@, *last, match newest_bar { Some(t) => Some(t@), None => None }, now@, trend@),
{
    proof {
        reveal_strlit("<span class=\"fresh-pill old\">봉 없음</span>");
        reveal_strlit("<button onclick=\"wlRemove('");
        reveal_strlit("')\">제거</button>");
    }
    let freshness_cell = match newest_bar {
        Some(ts) => fresh_pill(ts, now),
        None => String::from_str("<span class=\"fresh-pill old\">봉 없음</span>"),
    };
    let mut button = String::from_str("<button onclick=\"wlRemove('");
    let e = esc(code);
    button.append(e.as_str());
    button.append("')\">제거</button>");
    let r = vec![symbol_label(code), money(last), freshness_cell, String::from_str(trend), button];
    assert(cell_texts(r@) =~= watch_cells(code@, *last, match newest_bar { Some(t) => Some(t@), None => None }, now@, trend@));
    r
}

/// High and low of the first `n` closes, folded from `first` as a maximum
/// and a minimum (on equal values the maximum takes the later close, the
/// minimum keeps the earlier).
pub open spec fn range_fold(closes: Seq<Dec>, n: int, first: Dec) -> (Dec, Dec)
    decreases n,
{
    if n <= 0 {
        (first, first)
    } else {
        let (high, low) = range_fold(closes, n - 1, first);
        let c = closes[n - 1];
        (if dec_le(high, c) { c } else { high }, if dec_le(low, c) { low } else { c })
    }
}

/// The highest and lowest close, folded from the first; `None` for no
/// closes.
pub fn close_range(closes: &Vec<Dec>) -> (r: Option<(Dec, Dec)>)
    ensures
        closes@.len() == 0 ==> r is None,
        closes@.len() > 0 ==> r == Some(range_fold(closes@, closes@.len() as int, closes@[0])),
{
    if closes.len() == 0 {
        return None;
    }
    let first = closes[0];
    let mut high = first;
    let mut low = first;
    let mut i: usize = 0;
    while i < closes.len()
        invariant
            0 <= i <= closes@.len(),
            closes@.len() > 0,
            first == closes@[0],
            (high, low) == range_fold(closes@, i as int, first),
        decreases closes.len() - i,
    {
        high = high.max(closes[i]);
        low = low.min(closes[i]);
        i = i + 1;
    }
    Some((high, low))
}

} // verus!
