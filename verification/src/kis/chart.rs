//! 국내주식 기간별시세(일봉) over the KIS chart endpoint.
//!
//! The endpoint returns at most 100 rows per call and has no continuation,
//! so long ranges are walked in non-overlapping 100-calendar-day windows; a
//! window that still comes back full is split in half (to a bounded depth)
//! so no bar can be dropped silently. Pages are merged oldest first with one
//! bar per instant. Missing or malformed row fields fail loudly. The HTTP
//! calls are the application's; it hands each page's rows here.

use vstd::prelude::*;
use crate::config::{debug_quoted, debug_text, parse_i64, parse_i64_spec};
use crate::decimal::{Dec, decimal_from_str};
use crate::marketdata::{Bar, MarketDataError, Timeframe, same_bar};
use crate::marketdata::aggregator::{close_instant, day_close, day_in_range};
use crate::types::{Symbol, Timestamp};

verus! {

pub const CHART_PATH: &'static str = "/uapi/domestic-stock/v1/quotations/inquire-daily-itemchartprice";
/// 실전 = 모의 — no V prefix.
pub const CHART_TR_ID: &'static str = "FHKST03010100";
/// ~68 trading bars per window — comfortably under the 100-row cap.
pub const WINDOW_DAYS: i64 = 100;
pub const MAX_SPLIT_DEPTH: u8 = 6;
/// A full page means the window may be hiding older bars.
pub const PAGE_LIMIT: usize = 100;

/// An inclusive range of calendar days (days since 1970-01-01) and how
/// often it has been split.
#[derive(Debug, Clone, Copy, PartialEq, Eq, Structural)]
pub struct ChartWindow {
    pub start: i64,
    pub end: i64,
    pub depth: u8,
}

/// Consecutive 100-day windows from `start` through `to`, the last cut
/// short at `to`.
pub open spec fn windows_from(start: int, to: int) -> Seq<(int, int)>
    decreases to + 1 - start,
{
    if start > to {
        Seq::empty()
    } else {
        let end = if start + 99 < to { start + 99 } else { to };
        seq![(start, end)] + windows_from(end + 1, to)
    }
}

pub open spec fn window_bounds(s: Seq<ChartWindow>) -> Seq<(int, int)> {
    Seq::new(s.len(), |i: int| (s[i].start as int, s[i].end as int))
}

/// The windows that cover `from_day..=to_day`, oldest first, unsplit.
pub fn plan_windows(from_day: i64, to_day: i64) -> (r: Vec<ChartWindow>)
    requires
        to_day <= i64::MAX - 100,
    ensures
        window_bounds(r@) == windows_from(from_day as int, to_day as int),
        forall|i: int| 0 <= i < r@.len() ==> (#[trigger] r@[i]).depth == 0,
{
    let mut out: Vec<ChartWindow> = Vec::new();
    if from_day > to_day {
        assert(window_bounds(out@) =~= windows_from(from_day as int, to_day as int));
        return out;
    }
    let mut start = from_day;
    assert(window_bounds(out@) + windows_from(start as int, to_day as int) =~= windows_from(from_day as int, to_day as int));
    while start <= to_day
        invariant
            to_day <= i64::MAX - 100,
            start <= to_day + 1,
            window_bounds(out@) + windows_from(start as int, to_day as int) == windows_from(from_day as int, to_day as int),
            forall|i: int| 0 <= i < out@.len() ==> (#[trigger] out@[i]).depth == 0,
        decreases to_day + 1 - start,
    {
        let end = if start + (WINDOW_DAYS - 1) < to_day { start + (WINDOW_DAYS - 1) } else { to_day };
        let ghost before = window_bounds(out@);
        out.push(ChartWindow { start, end, depth: 0 });
        assert(window_bounds(out@) =~= before.push((start as int, end as int)));
        assert(windows_from(start as int, to_day as int) == seq![(start as int, end as int)] + windows_from(end + 1, to_day as int));
        assert(before.push((start as int, end as int)) + windows_from(end + 1, to_day as int)
            =~= before + (seq![(start as int, end as int)] + windows_from(end + 1, to_day as int)));
        start = end + 1;
    }
    assert(windows_from(start as int, to_day as int) =~= Seq::<(int, int)>::empty());
    assert(window_bounds(out@) + Seq::<(int, int)>::empty() =~= window_bounds(out@));
    out
}

/// A full page (100 rows or more) of a window that may still be split is
/// split at its middle day into two halves one level deeper.
pub open spec fn split_of(w: ChartWindow, rows: nat) -> Option<(ChartWindow, ChartWindow)> {
    if rows >= 100 && w.depth < 6 && w.start < w.end {
        let mid = w.start + (w.end - w.start) / 2;
        Some((
            ChartWindow { start: w.start, end: mid as i64, depth: (w.depth + 1) as u8 },
            ChartWindow { start: (mid + 1) as i64, end: w.end, depth: (w.depth + 1) as u8 },
        ))
    } else {
        None
    }
}

/// Whether a page of `rows` bars for window `w` must be re-fetched as two
/// halves, and which.
pub fn page_split(w: ChartWindow, rows: usize) -> (r: Option<(ChartWindow, ChartWindow)>)
    ensures
        r == split_of(w, rows as nat),
{
    if rows >= PAGE_LIMIT && w.depth < MAX_SPLIT_DEPTH && w.start < w.end {
        let half: i64 = ((w.end as i128 - w.start as i128) / 2) as i64;
        let mid = w.start + half;
        Some((
            ChartWindow { start: w.start, end: mid, depth: w.depth + 1 },
            ChartWindow { start: mid + 1, end: w.end, depth: w.depth + 1 },
        ))
    } else {
        None
    }
}

pub open spec fn in_range(b: Bar, from: int, to: int) -> bool {
    from <= b.timestamp && b.timestamp <= to
}

/// No earlier bar of `s` has the instant of bar `i`.
#[verifier::opaque]
pub open spec fn first_at(s: Seq<Bar>, i: int) -> bool {
    forall|j: int| 0 <= j < i ==> (#[trigger] s[j]).timestamp != s[i].timestamp
}

/// Instants strictly increase along `r`.
#[verifier::opaque]
pub open spec fn times_increasing(r: Seq<Bar>) -> bool {
    forall|a: int, b: int| 0 <= a < b < r.len() ==> (#[trigger] r[a]).timestamp < (#[trigger] r[b]).timestamp
}

/// `b` is, value for value, the first bar of its instant among the first
/// `n` of `s`, and inside `from..=to`.
pub open spec fn has_source(b: Bar, s: Seq<Bar>, n: int, from: int, to: int) -> bool {
    exists|i: int| 0 <= i < n && first_at(s, i) && in_range(s[i], from, to) && same_bar(b, #[trigger] s[i])
}

/// Some bar of `r` has instant `t`.
pub open spec fn has_instant(r: Seq<Bar>, t: int) -> bool {
    exists|k: int| 0 <= k < r.len() && (#[trigger] r[k]).timestamp == t
}

/// Every bar of `r` has its source among the first `n` of `s`.
#[verifier::opaque]
pub open spec fn drawn_from(r: Seq<Bar>, s: Seq<Bar>, n: int, from: int, to: int) -> bool {
    forall|k: int| 0 <= k < r.len() ==> has_source(#[trigger] r[k], s, n, from, to)
}

/// Every bar among the first `n` of `s` inside `from..=to` has its instant
/// in `r`.
#[verifier::opaque]
pub open spec fn covers(r: Seq<Bar>, s: Seq<Bar>, n: int, from: int, to: int) -> bool {
    forall|i: int| 0 <= i < n && in_range(#[trigger] s[i], from, to) ==> has_instant(r, s[i].timestamp as int)
}

/// `r` is `s` sorted by instant with one bar per instant (the first in
/// `s`), restricted to `from..=to`.
pub open spec fn merged(r: Seq<Bar>, s: Seq<Bar>, from: int, to: int) -> bool {
    &&& times_increasing(r)
    &&& drawn_from(r, s, s.len() as int, from, to)
    &&& covers(r, s, s.len() as int, from, to)
}

proof fn lemma_merge_start(s: Seq<Bar>, from: int, to: int)
    ensures
        times_increasing(Seq::empty()),
        drawn_from(Seq::empty(), s, 0, from, to),
        covers(Seq::empty(), s, 0, from, to),
{
    reveal(times_increasing);
    reveal(drawn_from);
    reveal(covers);
}

/// A bar outside the range leaves the merge as it was.
proof fn lemma_merge_skip_outside(r: Seq<Bar>, s: Seq<Bar>, j: int, from: int, to: int)
    requires
        0 <= j < s.len(),
        !in_range(s[j], from, to),
        drawn_from(r, s, j, from, to),
        covers(r, s, j, from, to),
    ensures
        drawn_from(r, s, j + 1, from, to),
        covers(r, s, j + 1, from, to),
{
    lemma_drawn_grows(r, s, j, from, to);
    reveal(covers);
}

/// Being drawn from the first `j` bars, `r` is drawn from the first `j + 1`.
proof fn lemma_drawn_grows(r: Seq<Bar>, s: Seq<Bar>, j: int, from: int, to: int)
    requires
        drawn_from(r, s, j, from, to),
    ensures
        drawn_from(r, s, j + 1, from, to),
{
    reveal(drawn_from);
    assert forall|k: int| 0 <= k < r.len() implies has_source(#[trigger] r[k], s, j + 1, from, to) by {
        assert(has_source(r[k], s, j, from, to));
        let i0 = choose|i: int| 0 <= i < j && first_at(s, i) && in_range(s[i], from, to) && same_bar(r[k], #[trigger] s[i]);
        assert(0 <= i0 < j + 1 && first_at(s, i0) && in_range(s[i0], from, to) && same_bar(r[k], s[i0]));
    }
}

/// A bar whose instant the merge already holds leaves it as it was.
proof fn lemma_merge_skip_seen(r: Seq<Bar>, s: Seq<Bar>, j: int, pos: int, from: int, to: int)
    requires
        0 <= j < s.len(),
        0 <= pos < r.len(),
        r[pos].timestamp == s[j].timestamp,
        drawn_from(r, s, j, from, to),
        covers(r, s, j, from, to),
    ensures
        drawn_from(r, s, j + 1, from, to),
        covers(r, s, j + 1, from, to),
{
    lemma_drawn_grows(r, s, j, from, to);
    reveal(covers);
    assert forall|i: int| 0 <= i < j + 1 && in_range(#[trigger] s[i], from, to) implies has_instant(r, s[i].timestamp as int) by {
        if i == j {
            assert(0 <= pos < r.len() && r[pos].timestamp == s[i].timestamp);
        }
    }
}

/// A bar whose instant the merge does not hold is the first of its instant.
proof fn lemma_first_of_new_instant(r: Seq<Bar>, s: Seq<Bar>, j: int, from: int, to: int)
    requires
        0 <= j < s.len(),
        in_range(s[j], from, to),
        covers(r, s, j, from, to),
        forall|k: int| 0 <= k < r.len() ==> (#[trigger] r[k]).timestamp != s[j].timestamp,
    ensures
        first_at(s, j),
{
    reveal(covers);
    reveal(first_at);
    assert forall|i: int| 0 <= i < j implies (#[trigger] s[i]).timestamp != s[j].timestamp by {
        if s[i].timestamp == s[j].timestamp {
            assert(in_range(s[i], from, to));
            assert(has_instant(r, s[i].timestamp as int));
            let k = choose|k: int| 0 <= k < r.len() && (#[trigger] r[k]).timestamp == s[i].timestamp;
            assert(r[k].timestamp != s[j].timestamp);
        }
    }
}

proof fn lemma_insert_sorted(r: Seq<Bar>, pos: int, b: Bar)
    requires
        0 <= pos <= r.len(),
        times_increasing(r),
        forall|k: int| 0 <= k < pos ==> (#[trigger] r[k]).timestamp < b.timestamp,
        forall|k: int| pos <= k < r.len() ==> b.timestamp < (#[trigger] r[k]).timestamp,
    ensures
        times_increasing(r.insert(pos, b)),
{
    reveal(times_increasing);
    let n = r.insert(pos, b);
    assert forall|a: int, c: int| 0 <= a < c < n.len() implies (#[trigger] n[a]).timestamp < (#[trigger] n[c]).timestamp by {
        if c < pos {
            assert(r[a].timestamp < r[c].timestamp);
        } else if a < pos && c == pos {
            assert(n[a] == r[a]);
        } else if a < pos && c > pos {
            assert(n[a] == r[a]);
            assert(n[c] == r[c - 1]);
        } else if a == pos {
            assert(n[c] == r[c - 1]);
        } else {
            assert(n[a] == r[a - 1]);
            assert(n[c] == r[c - 1]);
            assert(r[a - 1].timestamp < r[c - 1].timestamp);
        }
    }
}

proof fn lemma_insert_drawn(r: Seq<Bar>, s: Seq<Bar>, j: int, pos: int, b: Bar, from: int, to: int)
    requires
        0 <= j < s.len(),
        0 <= pos <= r.len(),
        in_range(s[j], from, to),
        first_at(s, j),
        same_bar(b, s[j]),
        drawn_from(r, s, j, from, to),
    ensures
        drawn_from(r.insert(pos, b), s, j + 1, from, to),
{
    reveal(drawn_from);
    let n = r.insert(pos, b);
    assert forall|k: int| 0 <= k < n.len() implies has_source(#[trigger] n[k], s, j + 1, from, to) by {
        if k == pos {
            assert(0 <= j < j + 1 && first_at(s, j) && in_range(s[j], from, to) && same_bar(n[k], s[j]));
        } else {
            let k0 = if k < pos { k } else { k - 1 };
            assert(n[k] == r[k0]);
            assert(has_source(r[k0], s, j, from, to));
            let i0 = choose|i: int| 0 <= i < j && first_at(s, i) && in_range(s[i], from, to) && same_bar(r[k0], #[trigger] s[i]);
            assert(0 <= i0 < j + 1 && first_at(s, i0) && in_range(s[i0], from, to) && same_bar(n[k], s[i0]));
        }
    }
}

proof fn lemma_insert_covers(r: Seq<Bar>, s: Seq<Bar>, j: int, pos: int, b: Bar, from: int, to: int)
    requires
        0 <= j < s.len(),
        0 <= pos <= r.len(),
        b.timestamp == s[j].timestamp,
        covers(r, s, j, from, to),
    ensures
        covers(r.insert(pos, b), s, j + 1, from, to),
{
    reveal(covers);
    let n = r.insert(pos, b);
    assert forall|i: int| 0 <= i < j + 1 && in_range(#[trigger] s[i], from, to) implies has_instant(n, s[i].timestamp as int) by {
        if i == j {
            assert(0 <= pos < n.len() && n[pos].timestamp == s[i].timestamp);
        } else {
            assert(has_instant(r, s[i].timestamp as int));
            let k0 = choose|k: int| 0 <= k < r.len() && (#[trigger] r[k]).timestamp == s[i].timestamp;
            let k1 = if k0 < pos { k0 } else { k0 + 1 };
            assert(0 <= k1 < n.len() && n[k1].timestamp == s[i].timestamp);
        }
    }
}

/// A bar of a new instant, inserted where its instant belongs, keeps the
/// merge sorted, drawn from the input and covering it.
proof fn lemma_merge_insert(r: Seq<Bar>, s: Seq<Bar>, j: int, pos: int, b: Bar, from: int, to: int)
    requires
        0 <= j < s.len(),
        0 <= pos <= r.len(),
        in_range(s[j], from, to),
        same_bar(b, s[j]),
        times_increasing(r),
        drawn_from(r, s, j, from, to),
        covers(r, s, j, from, to),
        forall|k: int| 0 <= k < pos ==> (#[trigger] r[k]).timestamp < s[j].timestamp,
        forall|k: int| pos <= k < r.len() ==> s[j].timestamp < (#[trigger] r[k]).timestamp,
    ensures
        times_increasing(r.insert(pos, b)),
        drawn_from(r.insert(pos, b), s, j + 1, from, to),
        covers(r.insert(pos, b), s, j + 1, from, to),
{
    assert forall|k: int| 0 <= k < r.len() implies (#[trigger] r[k]).timestamp != s[j].timestamp by {
        if k < pos {
        } else {
        }
    }
    lemma_first_of_new_instant(r, s, j, from, to);
    lemma_insert_sorted(r, pos, b);
    lemma_insert_drawn(r, s, j, pos, b, from, to);
    lemma_insert_covers(r, s, j, pos, b, from, to);
}

/// Sort by instant, keep the first bar of each instant, and keep only the
/// bars inside `from..=to`.
pub fn merge_bars(bars: &Vec<Bar>, from: Timestamp, to: Timestamp) -> (r: Vec<Bar>)
    ensures
        merged(r@, bars@, from as int, to as int),
{
    let mut out: Vec<Bar> = Vec::new();
    let mut j: usize = 0;
    proof {
        lemma_merge_start(bars@, from as int, to as int);
    }
    while j < bars.len()
        invariant
            0 <= j <= bars@.len(),
            times_increasing(out@),
            drawn_from(out@, bars@, j as int, from as int, to as int),
            covers(out@, bars@, j as int, from as int, to as int),
        decreases bars@.len() - j,
    {
        let b = &bars[j];
        let t = b.timestamp;
        if from <= t && t <= to {
            let mut pos: usize = 0;
            while pos < out.len() && out[pos].timestamp < t
                invariant
                    0 <= pos <= out@.len(),
                    forall|k: int| 0 <= k < pos ==> (#[trigger] out@[k]).timestamp < t,
                decreases out@.len() - pos,
            {
                pos = pos + 1;
            }
            if pos < out.len() && out[pos].timestamp == t {
                proof {
                    lemma_merge_skip_seen(out@, bars@, j as int, pos as int, from as int, to as int);
                }
            } else {
                proof {
                    reveal(times_increasing);
                    assert forall|k: int| pos <= k < out@.len() implies t < (#[trigger] out@[k]).timestamp by {
                        if k > pos {
                            assert(out@[pos as int].timestamp < out@[k].timestamp);
                        }
                    }
                }
                let ghost old_out = out@;
                let copy = b.duplicate();
                out.insert(pos, copy);
                proof {
                    lemma_merge_insert(old_out, bars@, j as int, pos as int, copy, from as int, to as int);
                }
            }
        } else {
            proof {
                lemma_merge_skip_outside(out@, bars@, j as int, from as int, to as int);
            }
        }
        j = j + 1;
    }
    out
}

/// `num_days_from_ce` of 1970-01-01 (chrono documents it).
pub const CE_DAY_OF_EPOCH: i64 = 719_163;

/// A `YYYYMMDD` text read by chrono as a date, as its day number from the
/// common era (0001-01-01 is 1), or chrono's error text.
pub uninterp spec fn ymd_ce_day(text: Seq<char>) -> Result<i32, Seq<char>>;

/// `NaiveDate::parse_from_str(text, "%Y%m%d")`, then `num_days_from_ce`.
#[verifier::external_body]
fn parse_ymd(text: &str) -> (r: Result<i32, String>)
    ensures
        match ymd_ce_day(text@) {
            Ok(d) => r == Ok::<i32, String>(d),
            Err(m) => r matches Err(x) && x@ == m,
        },
{
    match chrono::NaiveDate::parse_from_str(text, "%Y%m%d") {
        Ok(date) => Ok(chrono::Datelike::num_days_from_ce(&date)),
        Err(e) => Err(e.to_string()),
    }
}

/// The `YYYYMMDD` text of a common-era day number; empty where chrono
/// cannot hold the date.
pub uninterp spec fn ce_day_ymd(days: i32) -> Seq<char>;

/// `NaiveDate::from_num_days_from_ce_opt(days)` formatted `%Y%m%d`.
#[verifier::external_body]
fn ymd_of_ce_day(days: i32) -> (r: String)
    ensures
        r@ == ce_day_ymd(days),
{
    match chrono::NaiveDate::from_num_days_from_ce_opt(days) {
        Some(date) => date.format("%Y%m%d").to_string(),
        None => String::new(),
    }
}

/// The `YYYYMMDD` text of a day (days since 1970-01-01).
pub open spec fn day_ymd(day: int) -> Seq<char> {
    ce_day_ymd((day + CE_DAY_OF_EPOCH) as i32)
}

pub fn day_text(day: i64) -> (r: String)
    requires
        i32::MIN <= day + CE_DAY_OF_EPOCH <= i32::MAX,
    ensures
        r@ == day_ymd(day as int),
{
    ymd_of_ce_day((day + CE_DAY_OF_EPOCH) as i32)
}

/// The UTC calendar day of an instant (days since 1970-01-01).
pub open spec fn utc_day_of(ts: int) -> int {
    ts / 86_400_000_000_000
}

pub fn utc_day(ts: Timestamp) -> (r: i64)
    ensures
        r == utc_day_of(ts as int),
{
    let nanos: i64 = 86_400_000_000_000;
    if ts >= 0 {
        ts / nanos
    } else {
        let m: i128 = -(ts as i128);
        let q: i128 = (m + 86_400_000_000_000 - 1) / 86_400_000_000_000;
        proof {
            assert(-q == (ts as int) / 86_400_000_000_000) by (nonlinear_arith)
                requires
                    m == -(ts as int),
                    m > 0,
                    q == (m + 86_400_000_000_000 - 1) / 86_400_000_000_000,
            ;
        }
        (-q) as i64
    }
}

/// The query of one chart page: the window's first and last day, daily
/// bars, adjusted or raw prices.
pub fn chart_query(symbol: &Symbol, start_day: i64, end_day: i64, org_adj_prc: &str) -> (r: Vec<(&'static str, String)>)
    requires
        i32::MIN <= start_day + CE_DAY_OF_EPOCH <= i32::MAX,
        i32::MIN <= end_day + CE_DAY_OF_EPOCH <= i32::MAX,
    ensures
        r@.len() == 6,
        r@[0].0@ == "FID_COND_MRKT_DIV_CODE"@ && r@[0].1@ == "J"@,
        r@[1].0@ == "FID_INPUT_ISCD"@ && r@[1].1@ == symbol@,
        r@[2].0@ == "FID_INPUT_DATE_1"@ && r@[2].1@ == day_ymd(start_day as int),
        r@[3].0@ == "FID_INPUT_DATE_2"@ && r@[3].1@ == day_ymd(end_day as int),
        r@[4].0@ == "FID_PERIOD_DIV_CODE"@ && r@[4].1@ == "D"@,
        r@[5].0@ == "FID_ORG_ADJ_PRC"@ && r@[5].1@ == org_adj_prc@,
{
    vec![
        ("FID_COND_MRKT_DIV_CODE", String::from_str("J")),
        ("FID_INPUT_ISCD", String::from_str(symbol.as_str())),
        ("FID_INPUT_DATE_1", day_text(start_day)),
        ("FID_INPUT_DATE_2", day_text(end_day)),
        ("FID_PERIOD_DIV_CODE", String::from_str("D")),
        ("FID_ORG_ADJ_PRC", String::from_str(org_adj_prc)),
    ]
}

/// The string fields of one `output2` row (absent where the row has no
/// such string field).
#[derive(Debug, Clone)]
pub struct ChartRow {
    pub stck_bsop_date: Option<String>,
    pub stck_oprc: Option<String>,
    pub stck_hgpr: Option<String>,
    pub stck_lwpr: Option<String>,
    pub stck_clpr: Option<String>,
    pub acml_vol: Option<String>,
}

/// A field's text when present and non-empty.
pub open spec fn field_text(f: Option<String>) -> Option<Seq<char>> {
    match f {
        Some(t) => if t@.len() > 0 { Some(t@) } else { None },
        None => None,
    }
}

pub open spec fn missing_field(name: Seq<char>, row_text: Seq<char>) -> Seq<char> {
    "bar row missing field "@ + debug_text(name) + ": "@ + row_text
}

/// A price field: present, non-empty and a decimal.
pub open spec fn price_field(f: Option<String>, name: Seq<char>, row_text: Seq<char>) -> Result<Dec, Seq<char>> {
    match field_text(f) {
        None => Err(missing_field(name, row_text)),
        Some(t) => match decimal_from_str(t) {
            Ok(d) => Ok(d),
            Err(m) => Err("bad price in "@ + name + ": "@ + m),
        },
    }
}

/// `i64`'s `FromStr` error text for a text it refuses.
pub uninterp spec fn int_parse_error(text: Seq<char>) -> Seq<char>;

/// `text.parse::<i64>()`'s error, rendered.
#[verifier::external_body]
fn i64_parse_error(text: &str) -> (r: String)
    ensures
        r@ == int_parse_error(text@),
{
    match text.parse::<i64>() {
        Ok(_) => String::new(),
        Err(e) => e.to_string(),
    }
}

/// The bar a row gives: its date's 06:30 UTC (15:30 KST) close, the four
/// prices and the volume; or the first field that is missing or malformed,
/// in the order date, open, high, low, close, volume.
pub open spec fn chart_row_outcome(row: ChartRow, row_text: Seq<char>) -> Result<(int, Dec, Dec, Dec, Dec, i64), Seq<char>> {
    match field_text(row.stck_bsop_date) {
        None => Err(missing_field("stck_bsop_date"@, row_text)),
        Some(dt) => match ymd_ce_day(dt) {
            Err(m) => Err("bad stck_bsop_date: "@ + m),
            Ok(ce) => {
                let day = ce - CE_DAY_OF_EPOCH;
                match price_field(row.stck_oprc, "stck_oprc"@, row_text) {
                    Err(m) => Err(m),
                    Ok(o) => match price_field(row.stck_hgpr, "stck_hgpr"@, row_text) {
                        Err(m) => Err(m),
                        Ok(h) => match price_field(row.stck_lwpr, "stck_lwpr"@, row_text) {
                            Err(m) => Err(m),
                            Ok(l) => match price_field(row.stck_clpr, "stck_clpr"@, row_text) {
                                Err(m) => Err(m),
                                Ok(c) => match field_text(row.acml_vol) {
                                    None => Err(missing_field("acml_vol"@, row_text)),
                                    Some(vt) => match parse_i64_spec(vt) {
                                        None => Err("bad acml_vol: "@ + int_parse_error(vt)),
                                        Some(v) => Ok((day, o, h, l, c, v)),
                                    },
                                },
                            },
                        },
                    },
                }
            },
        },
    }
}

fn field_of(f: &Option<String>, name: &str, row_text: &str) -> (r: Result<String, MarketDataError>)
    ensures
        match field_text(*f) {
            Some(t) => r matches Ok(x) && x@ == t,
            None => r matches Err(MarketDataError::Source(m)) && m@ == missing_field(name@, row_text@),
        },
{
    match f {
        Some(t) => {
            if t.unicode_len() > 0 {
                return Ok(t.clone());
            }
        },
        None => {},
    }
    let mut m = String::from_str("bar row missing field ");
    let q = debug_quoted(name);
    m.append(q.as_str());
    m.append(": ");
    m.append(row_text);
    Err(MarketDataError::Source(m))
}

fn price_of(f: &Option<String>, name: &str, row_text: &str) -> (r: Result<Dec, MarketDataError>)
    ensures
        match price_field(*f, name@, row_text@) {
            Ok(d) => r == Ok::<Dec, MarketDataError>(d),
            Err(m) => r matches Err(MarketDataError::Source(x)) && x@ == m,
        },
{
    let t = field_of(f, name, row_text)?;
    match Dec::parse_detailed(t.as_str()) {
        Ok(d) => Ok(d),
        Err(e) => {
            let mut m = String::from_str("bad price in ");
            m.append(name);
            m.append(": ");
            m.append(e.as_str());
            Err(MarketDataError::Source(m))
        },
    }
}

/// The daily bar one chart row gives. A date whose close instant the
/// nanosecond timestamp cannot hold is refused as a bad date.
pub fn parse_chart_row(symbol: &Symbol, row: &ChartRow, row_text: &str) -> (r: Result<Bar, MarketDataError>)
    ensures
        match chart_row_outcome(*row, row_text@) {
            Ok((day, o, h, l, c, v)) => if day_in_range(day) {
                r matches Ok(b) && b.symbol@ == symbol@ && b.timeframe == Timeframe::Day
                    && b.timestamp == close_instant(day) && b.open == o && b.high == h && b.low == l
                    && b.close == c && b.volume == v
            } else {
                r matches Err(MarketDataError::Source(m)) && m@ == "bad stck_bsop_date: out of range"@
            },
            Err(m) => r matches Err(MarketDataError::Source(x)) && x@ == m,
        },
{
    proof {
        reveal_strlit("stck_bsop_date");
        reveal_strlit("stck_oprc");
        reveal_strlit("stck_hgpr");
        reveal_strlit("stck_lwpr");
        reveal_strlit("stck_clpr");
        reveal_strlit("acml_vol");
    }
    let date_text = match field_of(&row.stck_bsop_date, "stck_bsop_date", row_text) {
        Ok(t) => t,
        Err(e) => return Err(e),
    };
    let ce = match parse_ymd(date_text.as_str()) {
        Ok(d) => d,
        Err(e) => {
            let mut m = String::from_str("bad stck_bsop_date: ");
            m.append(e.as_str());
            return Err(MarketDataError::Source(m));
        },
    };
    let day: i64 = ce as i64 - CE_DAY_OF_EPOCH;
    let open = price_of(&row.stck_oprc, "stck_oprc", row_text)?;
    let high = price_of(&row.stck_hgpr, "stck_hgpr", row_text)?;
    let low = price_of(&row.stck_lwpr, "stck_lwpr", row_text)?;
    let close = price_of(&row.stck_clpr, "stck_clpr", row_text)?;
    let volume_text = match field_of(&row.acml_vol, "acml_vol", row_text) {
        Ok(t) => t,
        Err(e) => return Err(e),
    };
    let volume = match parse_i64(volume_text.as_str()) {
        Some(v) => v,
        None => {
            let mut m = String::from_str("bad acml_vol: ");
            let e = i64_parse_error(volume_text.as_str());
            m.append(e.as_str());
            return Err(MarketDataError::Source(m));
        },
    };
    if !(i64::MIN as i128 <= day as i128 * 86_400_000_000_000 + 23_400_000_000_000
        && day as i128 * 86_400_000_000_000 + 23_400_000_000_000 <= i64::MAX as i128) {
        return Err(MarketDataError::Source(String::from_str("bad stck_bsop_date: out of range")));
    }
    Ok(Bar {
        symbol: symbol.duplicate(),
        timeframe: Timeframe::Day,
        timestamp: day_close(day),
        open,
        high,
        low,
        close,
        volume,
    })
}

/// One page's bars in instant order, one per instant (first kept).
pub fn page_bars(parsed: &Vec<Bar>) -> (r: Vec<Bar>)
    ensures
        merged(r@, parsed@, i64::MIN as int, i64::MAX as int),
{
    merge_bars(parsed, i64::MIN, i64::MAX)
}

/// The walk over one symbol's range: windows still to fetch (the next one
/// last) and the bars of the pages kept so far.
pub struct ChartFetch {
    pending: Vec<ChartWindow>,
    collected: Vec<Bar>,
}

impl ChartFetch {
    pub closed spec fn pending_windows(self) -> Seq<ChartWindow> {
        self.pending@
    }

    pub closed spec fn collected_bars(self) -> Seq<Bar> {
        self.collected@
    }

    /// Start with the range's windows; the newest is fetched first.
    pub fn new(from_day: i64, to_day: i64) -> (r: ChartFetch)
        requires
            to_day <= i64::MAX - 100,
        ensures
            window_bounds(r.pending_windows()) == windows_from(from_day as int, to_day as int),
            forall|i: int| 0 <= i < r.pending_windows().len() ==> (#[trigger] r.pending_windows()[i]).depth == 0,
            r.collected_bars().len() == 0,
    {
        ChartFetch { pending: plan_windows(from_day, to_day), collected: Vec::new() }
    }

    /// The next window to fetch, if any.
    pub fn next_window(&mut self) -> (r: Option<ChartWindow>)
        ensures
            old(self).pending_windows().len() == 0 ==> r is None && final(self).pending_windows() == old(self).pending_windows(),
            old(self).pending_windows().len() > 0 ==> r == Some(old(self).pending_windows().last())
                && final(self).pending_windows() == old(self).pending_windows().drop_last(),
            final(self).collected_bars() == old(self).collected_bars(),
    {
        self.pending.pop()
    }

    /// Take one window's page: a full page of a splittable window is
    /// discarded and its halves queued (the second half fetched first);
    /// any other page's bars are kept.
    pub fn record_page(&mut self, window: ChartWindow, page: Vec<Bar>)
        ensures
            match split_of(window, page@.len()) {
                Some((a, b)) => final(self).pending_windows() == old(self).pending_windows().push(a).push(b)
                    && final(self).collected_bars() == old(self).collected_bars(),
                None => final(self).pending_windows() == old(self).pending_windows()
                    && final(self).collected_bars() == old(self).collected_bars() + page@,
            },
    {
        match page_split(window, page.len()) {
            Some((a, b)) => {
                self.pending.push(a);
                self.pending.push(b);
            },
            None => {
                let mut page = page;
                self.collected.append(&mut page);
            },
        }
    }

    /// All kept bars in instant order, one per instant, inside
    /// `from..=to`.
    pub fn finish(&self, from: Timestamp, to: Timestamp) -> (r: Vec<Bar>)
        ensures
            merged(r@, self.collected_bars(), from as int, to as int),
    {
        merge_bars(&self.collected, from, to)
    }
}

} // verus!
