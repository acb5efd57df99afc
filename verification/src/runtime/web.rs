//! Status-page building blocks: HTML escaping, money and KRW display,
//! candle freshness, symbol labels and the page's summary figures. Every
//! database-sourced string travels through [`esc`]; the page templates
//! around these pieces are the application's.

use vstd::prelude::*;
use crate::config::{parse_i64, parse_i64_spec};
use crate::decimal::{Dec, dec_abs, dec_of_int, decimal_checked_add, decimal_checked_div, decimal_checked_mul,
    decimal_checked_sub, decimal_round_dp, decimal_text};
use crate::storage::StoredPosition;
use crate::text::{contains_text, int_text, text_contains, text_equal, u64_text};

verus! {

/// The HTML entity for a markup character; any other character as itself.
pub open spec fn escape_char(c: char) -> Seq<char> {
    if c == '&' {
        "&amp;"@
    } else if c == '<' {
        "&lt;"@
    } else if c == '>' {
        "&gt;"@
    } else if c == '"' {
        "&quot;"@
    } else if c == '\'' {
        "&#x27;"@
    } else {
        seq![c]
    }
}

/// Each character of `s` escaped in turn.
pub open spec fn escaped(s: Seq<char>) -> Seq<char>
    decreases s.len(),
{
    if s.len() == 0 {
        Seq::empty()
    } else {
        escaped(s.drop_last()) + escape_char(s.last())
    }
}

/// No character that could open a tag or close an attribute.
pub open spec fn markup_free(s: Seq<char>) -> bool {
    forall|i: int| 0 <= i < s.len() ==> {
        let c = #[trigger] s[i];
        c != '<' && c != '>' && c != '"' && c != '\''
    }
}

/// Escape a value for safe HTML interpolation.
pub fn esc(value: &str) -> (r: String)
    ensures
        r@ == escaped(value@),
{
    proof {
        reveal_strlit("&amp;");
        reveal_strlit("&lt;");
        reveal_strlit("&gt;");
        reveal_strlit("&quot;");
        reveal_strlit("&#x27;");
    }
    let n = value.unicode_len();
    let mut out = String::new();
    let mut i: usize = 0;
    assert(value@.take(0) =~= Seq::<char>::empty());
    while i < n
        invariant
            n == value@.len(),
            0 <= i <= n,
            out@ == escaped(value@.take(i as int)),
        decreases n - i,
    {
        let c = value.get_char(i);
        proof {
            assert(value@.take(i + 1).drop_last() =~= value@.take(i as int));
            assert(value@.take(i + 1).last() == c);
        }
        if c == '&' {
            out.append("&amp;");
        } else if c == '<' {
            out.append("&lt;");
        } else if c == '>' {
            out.append("&gt;");
        } else if c == '"' {
            out.append("&quot;");
        } else if c == '\'' {
            out.append("&#x27;");
        } else {
            let one = value.substring_char(i, i + 1);
            assert(one@ =~= seq![c]);
            out.append(one);
        }
        i = i + 1;
    }
    assert(value@.take(n as int) =~= value@);
    out
}

/// Escaped text holds no markup character, whatever went in.
pub proof fn escaped_text_is_markup_free(s: Seq<char>)
    ensures
        markup_free(escaped(s)),
    decreases s.len(),
{
    reveal_strlit("&amp;");
    reveal_strlit("&lt;");
    reveal_strlit("&gt;");
    reveal_strlit("&quot;");
    reveal_strlit("&#x27;");
    if s.len() > 0 {
        escaped_text_is_markup_free(s.drop_last());
        let a = escaped(s.drop_last());
        let b = escape_char(s.last());
        assert forall|i: int| 0 <= i < (a + b).len() implies {
            let c = #[trigger] (a + b)[i];
            c != '<' && c != '>' && c != '"' && c != '\''
        } by {
            if i >= a.len() {
                assert((a + b)[i] == b[i - a.len()]);
            } else {
                assert((a + b)[i] == a[i]);
            }
        }
    }
}

/// `t` without its trailing `'0'` characters.
pub open spec fn without_trailing_zeros(t: Seq<char>) -> Seq<char>
    decreases t.len(),
{
    if t.len() > 0 && t.last() == '0' {
        without_trailing_zeros(t.drop_last())
    } else {
        t
    }
}

/// A decimal's text with only fractional zeros trimmed (`"80.0000"` is
/// `"80"`; `"80000"` keeps its zeros).
pub open spec fn display_amount(t: Seq<char>) -> Seq<char> {
    if contains_text(t, "."@) {
        let u = without_trailing_zeros(t);
        if u.len() > 0 && u.last() == '.' {
            u.drop_last()
        } else {
            u
        }
    } else {
        t
    }
}

/// An optional amount for display: `—` when absent.
pub fn money(value: &Option<Dec>) -> (r: String)
    ensures
        match value {
            None => r@ == "—"@,
            Some(d) => r@ == display_amount(decimal_text(*d)),
        },
{
    match value {
        None => String::from_str("—"),
        Some(d) => {
            let text = d.to_text();
            let t = text.as_str();
            if !text_contains(t, ".") {
                return text;
            }
            let n = t.unicode_len();
            let mut e: usize = n;
            assert(t@.take(n as int) =~= t@);
            while e > 0 && t.get_char(e - 1) == '0'
                invariant
                    n == t@.len(),
                    0 <= e <= n,
                    without_trailing_zeros(t@) == without_trailing_zeros(t@.take(e as int)),
                decreases e,
            {
                proof {
                    assert(t@.take(e as int).drop_last() =~= t@.take(e - 1));
                }
                e = e - 1;
            }
            proof {
                assert(without_trailing_zeros(t@.take(e as int)) == t@.take(e as int));
            }
            if e > 0 && t.get_char(e - 1) == '.' {
                assert(t@.take(e as int).drop_last() =~= t@.subrange(0, e - 1));
                String::from_str(t.substring_char(0, e - 1))
            } else {
                assert(t@.take(e as int) =~= t@.subrange(0, e as int));
                String::from_str(t.substring_char(0, e))
            }
        },
    }
}

/// Digits grouped by three from the right with commas.
pub open spec fn grouped(t: Seq<char>) -> Seq<char>
    decreases t.len(),
{
    if t.len() <= 3 {
        t
    } else {
        grouped(t.take(t.len() - 3)) + ","@ + t.skip(t.len() - 3)
    }
}

fn group_digits(s: &str, end: usize) -> (r: String)
    requires
        end <= s@.len(),
    ensures
        r@ == grouped(s@.take(end as int)),
    decreases end,
{
    proof {
        reveal_strlit(",");
    }
    if end <= 3 {
        assert(s@.take(end as int) =~= s@.subrange(0, end as int));
        return String::from_str(s.substring_char(0, end));
    }
    let mut r = group_digits(s, end - 3);
    r.append(",");
    r.append(s.substring_char(end - 3, end));
    assert(s@.take(end as int).take(end - 3) =~= s@.take(end - 3));
    assert(s@.take(end as int).skip(end - 3) =~= s@.subrange(end - 3, end as int));
    r
}

/// Thousands-grouped integer KRW: rounded half-to-even to a whole won,
/// `-` in front of a negative amount (`"12,345,678"`).
pub open spec fn krw_text(value: Dec) -> Seq<char> {
    let rounded = decimal_round_dp(value, 0);
    let digits = grouped(decimal_text(dec_abs(rounded)));
    if rounded.mant() < 0 {
        "-"@ + digits
    } else {
        digits
    }
}

/// Thousands-grouped integer KRW.
pub fn krw_int(value: &Dec) -> (r: String)
    ensures
        r@ == krw_text(*value),
{
    let rounded = value.round_dp(0);
    let text = rounded.abs().to_text();
    let n = text.unicode_len();
    let digits = group_digits(text.as_str(), n);
    assert(text@.take(n as int) =~= text@);
    if rounded.is_negative() {
        let mut r = String::from_str("-");
        r.append(digits.as_str());
        r
    } else {
        digits
    }
}

/// A signed profit-and-loss amount: green up, red down.
pub open spec fn pnl_span_text(amount: Dec) -> Seq<char> {
    if amount.mant() < 0 {
        "<span class=\"pnl down\">"@ + krw_text(dec_abs(amount)) + "원</span>"@
    } else {
        "<span class=\"pnl up\">+"@ + krw_text(dec_abs(amount)) + "원</span>"@
    }
}

pub fn pnl_span(amount: &Dec) -> (r: String)
    ensures
        r@ == pnl_span_text(*amount),
{
    let magnitude = krw_int(&amount.abs());
    let mut r = if amount.is_negative() {
        String::from_str("<span class=\"pnl down\">")
    } else {
        String::from_str("<span class=\"pnl up\">+")
    };
    r.append(magnitude.as_str());
    r.append("원</span>");
    r
}

/// The first ten characters are ASCII, so byte and character positions
/// agree over them.
pub open spec fn ascii_head(t: Seq<char>) -> bool {
    forall|i: int| 0 <= i < 10 ==> (#[trigger] t[i]) < '\u{80}'
}

/// `(year, month, day)` read from positions 0..4, 5..7 and 8..10 of a
/// `YYYY-MM-DD…` text.
pub open spec fn day_fields(t: Seq<char>) -> Option<(i64, i64, i64)> {
    if t.len() < 10 || !ascii_head(t) {
        None
    } else {
        match (parse_i64_spec(t.subrange(0, 4)), parse_i64_spec(t.subrange(5, 7)), parse_i64_spec(t.subrange(8, 10))) {
            (Some(y), Some(m), Some(d)) => Some((y, m, d)),
            _ => None,
        }
    }
}

/// Freshness of a candle timestamp against now: `fresh` within 7 days,
/// `stale` within 30, else `old` (day-field arithmetic, 365-day years and
/// 30-day months — display guidance only).
pub open spec fn freshness(ts: Seq<char>, now: Seq<char>) -> Seq<char> {
    match (day_fields(ts), day_fields(now)) {
        (Some((ty, tm, td)), Some((ny, nm, nd))) => {
            let days = (ny - ty) * 365 + (nm - tm) * 30 + (nd - td);
            if days <= 7 {
                "fresh"@
            } else if days <= 30 {
                "stale"@
            } else {
                "old"@
            }
        },
        _ => "old"@,
    }
}

fn day_fields_of(t: &str) -> (r: Option<(i64, i64, i64)>)
    ensures
        r == day_fields(t@),
{
    let n = t.unicode_len();
    if n < 10 {
        return None;
    }
    let mut i: usize = 0;
    while i < 10
        invariant
            n == t@.len(),
            n >= 10,
            0 <= i <= 10,
            forall|k: int| 0 <= k < i ==> (#[trigger] t@[k]) < '\u{80}',
        decreases 10 - i,
    {
        if t.get_char(i) >= '\u{80}' {
            return None;
        }
        i = i + 1;
    }
    let y = parse_i64(t.substring_char(0, 4));
    let m = parse_i64(t.substring_char(5, 7));
    let d = parse_i64(t.substring_char(8, 10));
    match (y, m, d) {
        (Some(y), Some(m), Some(d)) => Some((y, m, d)),
        _ => None,
    }
}

/// Freshness class for a candle timestamp.
pub fn freshness_class(ts: &str, now: &str) -> (r: &'static str)
    ensures
        r@ == freshness(ts@, now@),
{
    match (day_fields_of(ts), day_fields_of(now)) {
        (Some((ty, tm, td)), Some((ny, nm, nd))) => {
            let days: i128 = (ny as i128 - ty as i128) * 365 + (nm as i128 - tm as i128) * 30
                + (nd as i128 - td as i128);
            if days <= 7 {
                "fresh"
            } else if days <= 30 {
                "stale"
            } else {
                "old"
            }
        },
        _ => "old",
    }
}

/// Korean display names for common codes — a convenience label, never a
/// trading key.
pub open spec fn known_name(code: Seq<char>) -> Option<Seq<char>> {
    if code == "005930"@ { Some("삼성전자"@) }
    else if code == "000660"@ { Some("SK하이닉스"@) }
    else if code == "035420"@ { Some("NAVER"@) }
    else if code == "005380"@ { Some("현대차"@) }
    else if code == "068270"@ { Some("셀트리온"@) }
    else if code == "207940"@ { Some("삼성바이오로직스"@) }
    else if code == "000270"@ { Some("기아"@) }
    else if code == "051910"@ { Some("LG화학"@) }
    else if code == "006400"@ { Some("삼성SDI"@) }
    else if code == "012330"@ { Some("현대모비스"@) }
    else if code == "105560"@ { Some("KB금융"@) }
    else if code == "055550"@ { Some("신한지주"@) }
    else if code == "086790"@ { Some("하나금융지주"@) }
    else if code == "011200"@ { Some("HMM"@) }
    else if code == "028260"@ { Some("삼성물산"@) }
    else if code == "069500"@ { Some("KODEX 200"@) }
    else if code == "102110"@ { Some("TIGER 미국S&P500"@) }
    else if code == "379800"@ { Some("KODEX 미국채10년"@) }
    else if code == "091170"@ { Some("KODEX 인버스"@) }
    else if code == "293940"@ { Some("KODEX 반도체"@) }
    else { None }
}

/// The display name of a known code.
pub fn symbol_name(code: &str) -> (r: Option<&'static str>)
    ensures
        match r {
            Some(n) => known_name(code@) == Some(n@),
            None => known_name(code@) is None,
        },
{
    if text_equal(code, "005930") { Some("삼성전자") }
    else if text_equal(code, "000660") { Some("SK하이닉스") }
    else if text_equal(code, "035420") { Some("NAVER") }
    else if text_equal(code, "005380") { Some("현대차") }
    else if text_equal(code, "068270") { Some("셀트리온") }
    else if text_equal(code, "207940") { Some("삼성바이오로직스") }
    else if text_equal(code, "000270") { Some("기아") }
    else if text_equal(code, "051910") { Some("LG화학") }
    else if text_equal(code, "006400") { Some("삼성SDI") }
    else if text_equal(code, "012330") { Some("현대모비스") }
    else if text_equal(code, "105560") { Some("KB금융") }
    else if text_equal(code, "055550") { Some("신한지주") }
    else if text_equal(code, "086790") { Some("하나금융지주") }
    else if text_equal(code, "011200") { Some("HMM") }
    else if text_equal(code, "028260") { Some("삼성물산") }
    else if text_equal(code, "069500") { Some("KODEX 200") }
    else if text_equal(code, "102110") { Some("TIGER 미국S&P500") }
    else if text_equal(code, "379800") { Some("KODEX 미국채10년") }
    else if text_equal(code, "091170") { Some("KODEX 인버스") }
    else if text_equal(code, "293940") { Some("KODEX 반도체") }
    else { None }
}

/// A link to the symbol's page, labelled "name <small>code</small>" or the
/// bare code; every piece escaped.
pub open spec fn symbol_label_text(code: Seq<char>) -> Seq<char> {
    let inner = match known_name(code) {
        Some(n) => escaped(n) + " <small>"@ + escaped(code) + "</small>"@,
        None => escaped(code),
    };
    "<a href=\"/symbol/"@ + escaped(code) + "\">"@ + inner + "</a>"@
}

pub fn symbol_label(code: &str) -> (r: String)
    ensures
        r@ == symbol_label_text(code@),
{
    let code_text = esc(code);
    let inner = match symbol_name(code) {
        Some(name) => {
            let mut t = esc(name);
            t.append(" <small>");
            t.append(code_text.as_str());
            t.append("</small>");
            t
        },
        None => esc(code),
    };
    let mut r = String::from_str("<a href=\"/symbol/");
    r.append(code_text.as_str());
    r.append("\">");
    r.append(inner.as_str());
    r.append("</a>");
    r
}

/// An order-status pill; only the known statuses get a colour class.
pub open spec fn status_pill_text(status: Seq<char>) -> Seq<char> {
    let known = status == "filled"@ || status == "cancelled"@ || status == "rejected"@ || status == "unknown"@;
    "<span class=\"pill "@ + (if known { status } else { Seq::empty() }) + "\">"@ + escaped(status) + "</span>"@
}

pub fn status_pill(status: &str) -> (r: String)
    ensures
        r@ == status_pill_text(status@),
{
    let known = text_equal(status, "filled") || text_equal(status, "cancelled") || text_equal(status, "rejected")
        || text_equal(status, "unknown");
    let mut r = String::from_str("<span class=\"pill ");
    if known {
        r.append(status);
    }
    r.append("\">");
    let e = esc(status);
    r.append(e.as_str());
    r.append("</span>");
    proof {
        reveal_strlit("");
    }
    assert(known ==> r@ == status_pill_text(status@));
    assert(!known ==> r@ =~= status_pill_text(status@));
    r
}

/// The kill-switch control: the engaged badge with its reason, or the
/// button that engages it.
pub open spec fn kill_badge_text(kill_switch: bool, reason: Seq<char>) -> Seq<char> {
    if kill_switch {
        "<span class=\"kill\">KILL · "@ + escaped(reason) + " <button onclick=\"toggleKill(false)\">해제</button></span>"@
    } else {
        "<span class=\"kill\"><button onclick=\"toggleKill(true)\">KILL</button></span>"@
    }
}

pub fn kill_badge(kill_switch: bool, reason: Option<&str>) -> (r: String)
    ensures
        r@ == kill_badge_text(kill_switch, match reason { Some(t) => t@, None => Seq::empty() }),
{
    if kill_switch {
        let why: &str = match reason {
            Some(t) => t,
            None => "",
        };
        proof {
            reveal_strlit("");
        }
        let mut r = String::from_str("<span class=\"kill\">KILL · ");
        let e = esc(why);
        r.append(e.as_str());
        r.append(" <button onclick=\"toggleKill(false)\">해제</button></span>");
        r
    } else {
        String::from_str("<span class=\"kill\"><button onclick=\"toggleKill(true)\">KILL</button></span>")
    }
}

/// Uptime as hours and minutes from an hour on, else minutes.
pub open spec fn uptime_spec(secs: nat) -> Seq<char> {
    if secs >= 3600 {
        int_text((secs / 3600) as int) + "시간 "@ + int_text(((secs % 3600) / 60) as int) + "분"@
    } else {
        int_text((secs / 60) as int) + "분"@
    }
}

pub fn uptime_text(secs: u64) -> (r: String)
    ensures
        r@ == uptime_spec(secs as nat),
{
    if secs >= 3600 {
        let mut r = u64_text(secs / 3600);
        r.append("시간 ");
        let m = u64_text((secs % 3600) / 60);
        r.append(m.as_str());
        r.append("분");
        r
    } else {
        let mut r = u64_text(secs / 60);
        r.append("분");
        r
    }
}

/// The newest price the list holds for `symbol` (a later entry replaces
/// an earlier one, as when the list is collected into a map).
pub open spec fn latest_price(prices: Seq<(String, Dec)>, symbol: Seq<char>) -> Option<Dec>
    decreases prices.len(),
{
    if prices.len() == 0 {
        None
    } else if prices.last().0@ == symbol {
        Some(prices.last().1)
    } else {
        latest_price(prices.drop_last(), symbol)
    }
}

pub fn latest_price_of(prices: &Vec<(String, Dec)>, symbol: &str) -> (r: Option<Dec>)
    ensures
        r == latest_price(prices@, symbol@),
{
    let mut k: usize = prices.len();
    assert(prices@.take(k as int) =~= prices@);
    while k > 0
        invariant
            0 <= k <= prices@.len(),
            latest_price(prices@, symbol@) == latest_price(prices@.take(k as int), symbol@),
        decreases k,
    {
        proof {
            assert(prices@.take(k as int).drop_last() =~= prices@.take(k - 1));
        }
        if text_equal(prices[k - 1].0.as_str(), symbol) {
            return Some(prices[k - 1].1);
        }
        k = k - 1;
    }
    None
}

/// Book cost and mark value over the positions: cost at average price,
/// value at the latest price where one is known (else at cost); `None`
/// where the decimal arithmetic overflows.
pub open spec fn book_totals(positions: Seq<StoredPosition>, prices: Seq<(String, Dec)>) -> Option<(Dec, Dec)>
    decreases positions.len(),
{
    if positions.len() == 0 {
        Some((dec_of_int(0), dec_of_int(0)))
    } else {
        match book_totals(positions.drop_last(), prices) {
            None => None,
            Some((cost, value)) => {
                let p = positions.last();
                let q = dec_of_int(p.quantity as int);
                let mark = match latest_price(prices, p.symbol@) {
                    Some(x) => x,
                    None => p.average_price,
                };
                match decimal_checked_mul(q, p.average_price) {
                    None => None,
                    Some(pc) => match decimal_checked_add(cost, pc) {
                        None => None,
                        Some(c2) => match decimal_checked_mul(q, mark) {
                            None => None,
                            Some(pv) => match decimal_checked_add(value, pv) {
                                None => None,
                                Some(v2) => Some((c2, v2)),
                            },
                        },
                    },
                }
            },
        }
    }
}

/// The overview's summary figures.
#[derive(Debug, Clone, Copy)]
pub struct OverviewFigures {
    /// Total mark value.
    pub value_total: Dec,
    /// Mark value less cost.
    pub unrealized: Dec,
    /// Unrealized as a percent of cost, to two places (zero on no cost).
    pub unrealized_pct: Dec,
}

pub open spec fn overview_spec(positions: Seq<StoredPosition>, prices: Seq<(String, Dec)>) -> Option<(Dec, Dec, Dec)> {
    match book_totals(positions, prices) {
        None => None,
        Some((cost, value)) => match decimal_checked_sub(value, cost) {
            None => None,
            Some(u) => if cost.mant() == 0 {
                Some((value, u, decimal_round_dp(dec_of_int(0), 2)))
            } else {
                match decimal_checked_mul(u, dec_of_int(100)) {
                    None => None,
                    Some(x) => match decimal_checked_div(x, cost) {
                        None => None,
                        Some(pct) => Some((value, u, decimal_round_dp(pct, 2))),
                    },
                }
            },
        },
    }
}

/// The overview's summary figures; `None` where the decimal arithmetic
/// overflows.
pub fn overview_figures(positions: &Vec<StoredPosition>, prices: &Vec<(String, Dec)>) -> (r: Option<OverviewFigures>)
    ensures
        match overview_spec(positions@, prices@) {
            None => r is None,
            Some((v, u, p)) => r matches Some(f) && f.value_total == v && f.unrealized == u && f.unrealized_pct == p,
        },
{
    let mut cost = Dec::zero();
    let mut value = Dec::zero();
    let mut i: usize = 0;
    assert(positions@.take(0) =~= Seq::<StoredPosition>::empty());
    while i < positions.len()
        invariant
            0 <= i <= positions@.len(),
            book_totals(positions@.take(i as int), prices@) == Some((cost, value)),
        decreases positions@.len() - i,
    {
        proof {
            assert(positions@.take(i + 1).drop_last() =~= positions@.take(i as int));
        }
        let p = &positions[i];
        let q = Dec::from_i64(p.quantity);
        let mark = match latest_price_of(prices, p.symbol.as_str()) {
            Some(x) => x,
            None => p.average_price,
        };
        let pc = match q.checked_mul(&p.average_price) {
            Some(x) => x,
            None => {
                proof { lemma_totals_none_extends(positions@, prices@, i + 1); }
                return None;
            },
        };
        let c2 = match cost.checked_add(&pc) {
            Some(x) => x,
            None => {
                proof { lemma_totals_none_extends(positions@, prices@, i + 1); }
                return None;
            },
        };
        let pv = match q.checked_mul(&mark) {
            Some(x) => x,
            None => {
                proof { lemma_totals_none_extends(positions@, prices@, i + 1); }
                return None;
            },
        };
        let v2 = match value.checked_add(&pv) {
            Some(x) => x,
            None => {
                proof { lemma_totals_none_extends(positions@, prices@, i + 1); }
                return None;
            },
        };
        cost = c2;
        value = v2;
        i = i + 1;
    }
    assert(positions@.take(positions@.len() as int) =~= positions@);
    let unrealized = match value.checked_sub(&cost) {
        Some(u) => u,
        None => return None,
    };
    let pct = if cost.is_zero() {
        Dec::zero().round_dp(2)
    } else {
        let x = match unrealized.checked_mul(&Dec::from_i64(100)) {
            Some(x) => x,
            None => return None,
        };
        match x.checked_div(&cost) {
            Some(p) => p.round_dp(2),
            None => return None,
        }
    };
    Some(OverviewFigures { value_total: value, unrealized, unrealized_pct: pct })
}

/// Once the totals overflow on a prefix, they overflow on every longer one.
proof fn lemma_totals_none_extends(positions: Seq<StoredPosition>, prices: Seq<(String, Dec)>, k: int)
    requires
        0 <= k <= positions.len(),
        book_totals(positions.take(k), prices) is None,
    ensures
        book_totals(positions, prices) is None,
    decreases positions.len() - k,
{
    if k < positions.len() {
        assert(positions.take(k + 1).drop_last() =~= positions.take(k));
        lemma_totals_none_extends(positions, prices, k + 1);
    } else {
        assert(positions.take(k) =~= positions);
    }
}

/// One position row's figures: the mark (latest price), the mark value
/// (at cost without one), the profit against cost, whether the mark is at
/// or above the average price, and the profit as a percent of cost to two
/// places (`None` on no cost).
#[derive(Debug, Clone, Copy)]
pub struct PositionFigures {
    pub mark: Option<Dec>,
    pub value: Dec,
    pub pnl: Dec,
    pub rising: bool,
    pub pnl_pct: Option<Dec>,
}

pub open spec fn position_spec(p: StoredPosition, prices: Seq<(String, Dec)>) -> Option<(Option<Dec>, Dec, Dec, bool, Option<Dec>)> {
    let q = dec_of_int(p.quantity as int);
    let mark = latest_price(prices, p.symbol@);
    match decimal_checked_mul(q, p.average_price) {
        None => None,
        Some(cost) => {
            let vp = match mark {
                Some(x) => match decimal_checked_mul(q, x) {
                    None => None,
                    Some(v) => match decimal_checked_sub(v, cost) {
                        None => None,
                        Some(pnl) => Some((v, pnl)),
                    },
                },
                None => Some((cost, dec_of_int(0))),
            };
            match vp {
                None => None,
                Some((v, pnl)) => {
                    let rising = match mark { Some(x) => crate::decimal::dec_le(p.average_price, x), None => false };
                    if cost.mant() == 0 {
                        Some((mark, v, pnl, rising, None))
                    } else {
                        match decimal_checked_mul(pnl, dec_of_int(100)) {
                            None => None,
                            Some(x) => match decimal_checked_div(x, cost) {
                                None => None,
                                Some(pct) => Some((mark, v, pnl, rising, Some(decimal_round_dp(pct, 2)))),
                            },
                        }
                    }
                },
            }
        },
    }
}

pub fn position_figures(p: &StoredPosition, prices: &Vec<(String, Dec)>) -> (r: Option<PositionFigures>)
    ensures
        match position_spec(*p, prices@) {
            None => r is None,
            Some((m, v, pnl, up, pct)) => r matches Some(f) && f.mark == m && f.value == v && f.pnl == pnl
                && f.rising == up && f.pnl_pct == pct,
        },
{
    let q = Dec::from_i64(p.quantity);
    let mark = latest_price_of(prices, p.symbol.as_str());
    let cost = match q.checked_mul(&p.average_price) {
        Some(c) => c,
        None => return None,
    };
    let (value, pnl) = match mark {
        Some(x) => {
            let v = match q.checked_mul(&x) {
                Some(v) => v,
                None => return None,
            };
            match v.checked_sub(&cost) {
                Some(d) => (v, d),
                None => return None,
            }
        },
        None => (cost, Dec::zero()),
    };
    let rising = match mark {
        Some(x) => p.average_price.le(&x),
        None => false,
    };
    let pnl_pct = if cost.is_zero() {
        None
    } else {
        let x = match pnl.checked_mul(&Dec::from_i64(100)) {
            Some(x) => x,
            None => return None,
        };
        match x.checked_div(&cost) {
            Some(pct) => Some(pct.round_dp(2)),
            None => return None,
        }
    };
    Some(PositionFigures { mark, value, pnl, rising, pnl_pct })
}

/// The class of a table cell: every column after the first is numeric.
pub open spec fn cell_class(i: int) -> Seq<char> {
    if i >= 1 { " class=\"num\""@ } else { Seq::empty() }
}

/// Header cells, each header escaped.
pub open spec fn header_cells(hs: Seq<Seq<char>>) -> Seq<char>
    decreases hs.len(),
{
    if hs.len() == 0 {
        Seq::empty()
    } else {
        header_cells(hs.drop_last()) + "<th"@ + cell_class(hs.len() - 1) + ">"@ + escaped(hs.last()) + "</th>"@
    }
}

/// Body cells, as given (callers escape what they put in).
pub open spec fn body_cells(cells: Seq<Seq<char>>) -> Seq<char>
    decreases cells.len(),
{
    if cells.len() == 0 {
        Seq::empty()
    } else {
        body_cells(cells.drop_last()) + "<td"@ + cell_class(cells.len() - 1) + ">"@ + cells.last() + "</td>"@
    }
}

pub open spec fn body_rows(rows: Seq<Seq<Seq<char>>>) -> Seq<char>
    decreases rows.len(),
{
    if rows.len() == 0 {
        Seq::empty()
    } else {
        body_rows(rows.drop_last()) + "<tr>"@ + body_cells(rows.last()) + "</tr>"@
    }
}

/// A table, or a placeholder when there are no rows.
pub open spec fn table_text(headers: Seq<Seq<char>>, rows: Seq<Seq<Seq<char>>>) -> Seq<char> {
    if rows.len() == 0 {
        "<p class=\"empty\">(no rows)</p>"@
    } else {
        "<table><thead><tr>"@ + header_cells(headers) + "</tr></thead><tbody>"@ + body_rows(rows)
            + "</tbody></table>"@
    }
}

pub open spec fn str_views(s: Seq<&str>) -> Seq<Seq<char>> {
    Seq::new(s.len(), |i: int| s[i]@)
}

pub open spec fn row_views(rows: Seq<Vec<String>>) -> Seq<Seq<Seq<char>>> {
    Seq::new(rows.len(), |i: int| Seq::new(rows[i]@.len(), |j: int| rows[i]@[j]@))
}

fn cells_html(cells: &Vec<String>) -> (r: String)
    ensures
        r@ == body_cells(Seq::new(cells@.len(), |j: int| cells@[j]@)),
{
    let ghost all = Seq::new(cells@.len(), |j: int| cells@[j]@);
    let mut out = String::new();
    let mut i: usize = 0;
    assert(all.take(0) =~= Seq::<Seq<char>>::empty());
    while i < cells.len()
        invariant
            all == Seq::new(cells@.len(), |j: int| cells@[j]@),
            0 <= i <= cells@.len(),
            out@ == body_cells(all.take(i as int)),
        decreases cells@.len() - i,
    {
        proof {
            assert(all.take(i + 1).drop_last() =~= all.take(i as int));
            reveal_strlit("<td");
            reveal_strlit(" class=\"num\"");
            reveal_strlit("");
        }
        out.append("<td");
        out.append(if i >= 1 { " class=\"num\"" } else { "" });
        out.append(">");
        out.append(cells[i].as_str());
        out.append("</td>");
        i = i + 1;
    }
    assert(all.take(cells@.len() as int) =~= all);
    out
}

/// An HTML table with the given headers (escaped) and rows of cell HTML.
pub fn table(headers: &Vec<&str>, rows: &Vec<Vec<String>>) -> (r: String)
    ensures
        r@ == table_text(str_views(headers@), row_views(rows@)),
{
    if rows.len() == 0 {
        return String::from_str("<p class=\"empty\">(no rows)</p>");
    }
    let ghost hs = str_views(headers@);
    let mut head = String::new();
    let mut i: usize = 0;
    assert(hs.take(0) =~= Seq::<Seq<char>>::empty());
    while i < headers.len()
        invariant
            hs == str_views(headers@),
            0 <= i <= headers@.len(),
            head@ == header_cells(hs.take(i as int)),
        decreases headers@.len() - i,
    {
        proof {
            assert(hs.take(i + 1).drop_last() =~= hs.take(i as int));
            reveal_strlit("<th");
            reveal_strlit(" class=\"num\"");
            reveal_strlit("");
        }
        head.append("<th");
        head.append(if i >= 1 { " class=\"num\"" } else { "" });
        head.append(">");
        let e = esc(headers[i]);
        head.append(e.as_str());
        head.append("</th>");
        i = i + 1;
    }
    assert(hs.take(headers@.len() as int) =~= hs);
    let ghost rs = row_views(rows@);
    let mut body = String::new();
    let mut k: usize = 0;
    assert(rs.take(0) =~= Seq::<Seq<Seq<char>>>::empty());
    while k < rows.len()
        invariant
            rs == row_views(rows@),
            0 <= k <= rows@.len(),
            body@ == body_rows(rs.take(k as int)),
        decreases rows@.len() - k,
    {
        proof {
            assert(rs.take(k + 1).drop_last() =~= rs.take(k as int));
        }
        let cells = cells_html(&rows[k]);
        body.append("<tr>");
        body.append(cells.as_str());
        body.append("</tr>");
        k = k + 1;
    }
    assert(rs.take(rows@.len() as int) =~= rs);
    let mut r = String::from_str("<table><thead><tr>");
    r.append(head.as_str());
    r.append("</tr></thead><tbody>");
    r.append(body.as_str());
    r.append("</tbody></table>");
    r
}

} // verus!
