//! Tick-to-daily-bar aggregation.
//!
//! The live quote stream closes into completed daily bars. A bar is emitted
//! only when a tick from a later trading date arrives (or on `flush`) — an
//! in-progress bar is never visible to consumers, so snapshots cannot see a
//! bar that later prices would mutate.
//!
//! Trading date = the KST calendar date of the tick (KRX session), counted
//! in days since 1970-01-01. Bar timestamps use the completion convention
//! shared with the chart source: that date's 15:30 KST == 06:30 UTC.
//!
//! Volume is 0: the realtime quote carries no traded size.

use vstd::prelude::*;
use crate::decimal::{Dec, dec_lt};
use crate::symbol_map::SymbolMap;
use crate::types::{Quote, Symbol, Timestamp};
use super::{Bar, Timeframe};

verus! {

pub const NANOS_PER_DAY: i128 = 86_400_000_000_000;
pub const KST_OFFSET: i128 = 32_400_000_000_000;
pub const CLOSE_OFFSET: i128 = 23_400_000_000_000;

/// Ticks whose trading day's close instant is representable.
pub open spec fn tick_in_range(ts: int) -> bool {
    i64::MIN + 30_600_000_000_000 <= ts <= i64::MAX - 55_800_000_000_000
}

/// The KST calendar day of an instant, in days since 1970-01-01.
pub open spec fn kst_day(ts: int) -> int {
    (ts + KST_OFFSET) / (NANOS_PER_DAY as int)
}

/// 06:30 UTC (15:30 KST) of a day.
pub open spec fn close_instant(day: int) -> int {
    day * NANOS_PER_DAY + CLOSE_OFFSET
}

/// One symbol's in-progress bar.
#[derive(Debug, Clone, Copy)]
pub struct PartialBar {
    pub date: i64,
    pub open: Dec,
    pub high: Dec,
    pub low: Dec,
    pub close: Dec,
}

pub open spec fn day_in_range(day: int) -> bool {
    i64::MIN <= close_instant(day) <= i64::MAX
}

/// Aggregates a live tick stream into completed daily bars, per symbol.
pub struct BarAggregator {
    inner: SymbolMap<PartialBar>,
}

proof fn lemma_day_bounds(ts: int)
    requires
        tick_in_range(ts),
    ensures
        day_in_range(kst_day(ts)),
        i64::MIN <= kst_day(ts) <= i64::MAX,
{
    let d = kst_day(ts);
    assert(d * NANOS_PER_DAY <= ts + KST_OFFSET < d * NANOS_PER_DAY + NANOS_PER_DAY) by (nonlinear_arith)
        requires
            d == (ts + KST_OFFSET) / (NANOS_PER_DAY as int),
    ;
}

/// The KST trading day of an instant.
pub fn trading_day(ts: Timestamp) -> (r: i64)
    requires
        tick_in_range(ts as int),
    ensures
        r == kst_day(ts as int),
        day_in_range(r as int),
{
    proof {
        lemma_day_bounds(ts as int);
    }
    let shifted: i128 = ts as i128 + KST_OFFSET;
    let day: i128 = if shifted >= 0 {
        shifted / NANOS_PER_DAY
    } else {
        let m = -shifted;
        let q = (m + NANOS_PER_DAY - 1) / NANOS_PER_DAY;
        proof {
            assert(-q == shifted / NANOS_PER_DAY) by (nonlinear_arith)
                requires
                    m == -shifted,
                    m > 0,
                    q == (m + NANOS_PER_DAY - 1) / (NANOS_PER_DAY as int),
            ;
        }
        -q
    };
    day as i64
}

/// The close instant of a trading day.
pub fn day_close(day: i64) -> (r: Timestamp)
    requires
        day_in_range(day as int),
    ensures
        r == close_instant(day as int),
{
    (day as i128 * NANOS_PER_DAY + CLOSE_OFFSET) as i64
}

pub open spec fn completed_bar_ok(b: Bar, symbol: Seq<char>, p: PartialBar) -> bool {
    &&& b.symbol@ == symbol
    &&& b.timeframe == Timeframe::Day
    &&& b.timestamp == close_instant(p.date as int)
    &&& b.open == p.open && b.high == p.high && b.low == p.low && b.close == p.close
    &&& b.volume == 0
}

fn completed(symbol: &Symbol, p: PartialBar) -> (r: Bar)
    requires
        day_in_range(p.date as int),
    ensures
        completed_bar_ok(r, symbol@, p),
{
    Bar {
        symbol: symbol.duplicate(),
        timeframe: Timeframe::Day,
        timestamp: day_close(p.date),
        open: p.open,
        high: p.high,
        low: p.low,
        close: p.close,
        volume: 0,
    }
}

/// A fresh partial bar from one price.
pub open spec fn opening(date: int, price: Dec) -> PartialBar {
    PartialBar { date: date as i64, open: price, high: price, low: price, close: price }
}

/// A partial bar after one more tick of the same day.
pub open spec fn extended(p: PartialBar, price: Dec) -> PartialBar {
    PartialBar {
        date: p.date,
        open: p.open,
        high: if dec_lt(p.high, price) { price } else { p.high },
        low: if dec_lt(price, p.low) { price } else { p.low },
        close: price,
    }
}

impl BarAggregator {
    #[verifier::type_invariant]
    spec fn days_ok(self) -> bool {
        forall|k: Seq<char>| #[trigger] self.inner@.contains_key(k) ==> day_in_range(self.inner@[k].date as int)
    }

    /// The in-progress bars per symbol.
    pub closed spec fn partials(self) -> Map<Seq<char>, PartialBar> {
        self.inner@
    }

    pub fn new() -> (r: BarAggregator)
        ensures
            r.partials() == Map::<Seq<char>, PartialBar>::empty(),
    {
        BarAggregator { inner: SymbolMap::new() }
    }

    /// Feed one tick. Returns the previous trading date's completed bar when
    /// this tick opens a new date for its symbol, otherwise `None`.
    pub fn push(&mut self, quote: &Quote) -> (r: Option<Bar>)
        requires
            tick_in_range(quote.timestamp as int),
        ensures
            ({
                let s = quote.symbol@;
                let day = kst_day(quote.timestamp as int);
                let m = old(self).partials();
                if !m.contains_key(s) {
                    r is None && final(self).partials() == m.insert(s, opening(day, quote.last_price))
                } else if m[s].date == day {
                    r is None && final(self).partials() == m.insert(s, extended(m[s], quote.last_price))
                } else {
                    r matches Some(b) && completed_bar_ok(b, s, m[s])
                        && final(self).partials() == m.insert(s, opening(day, quote.last_price))
                }
            }),
    {
        proof {
            use_type_invariant(&*self);
        }
        let date = trading_day(quote.timestamp);
        let price = quote.last_price;
        let existing: Option<PartialBar> = match self.inner.get(&quote.symbol) {
            Some(p) => Some(*p),
            None => None,
        };
        let (next, out) = match existing {
            Some(p) => {
                if p.date == date {
                    let high = if p.high.lt(&price) { price } else { p.high };
                    let low = if price.lt(&p.low) { price } else { p.low };
                    (PartialBar { date: p.date, open: p.open, high, low, close: price }, None)
                } else {
                    let bar = completed(&quote.symbol, p);
                    (PartialBar { date, open: price, high: price, low: price, close: price }, Some(bar))
                }
            },
            None => (PartialBar { date, open: price, high: price, low: price, close: price }, None),
        };
        let mut inner: SymbolMap<PartialBar> = SymbolMap::new();
        std::mem::swap(&mut inner, &mut self.inner);
        inner.insert(quote.symbol.duplicate(), next);
        self.inner = inner;
        out
    }

    /// Close every in-progress bar now (shutdown, tests). Empties the
    /// aggregator; subsequent ticks start fresh bars.
    pub fn flush(&mut self) -> (r: Vec<Bar>)
        ensures
            final(self).partials() == Map::<Seq<char>, PartialBar>::empty(),
            r@.len() == old(self).partials().dom().len(),
            forall|i: int| 0 <= i < r@.len() ==> old(self).partials().contains_key((#[trigger] r@[i]).symbol@)
                && completed_bar_ok(r@[i], r@[i].symbol@, old(self).partials()[r@[i].symbol@]),
            forall|i: int, j: int| 0 <= i < j < r@.len() ==> (#[trigger] r@[i]).symbol@ != (#[trigger] r@[j]).symbol@,
    {
        proof {
            use_type_invariant(&*self);
        }
        self.inner.check_items();
        let n = self.inner.len();
        let mut out: Vec<Bar> = Vec::new();
        let mut i: usize = 0;
        while i < n
            invariant
                n == self.inner.items().len(),
                0 <= i <= n,
                out@.len() == i,
                crate::symbol_map::keys_unique(self.inner.items()),
                self.inner@ == crate::symbol_map::entries_to_map(self.inner.items()),
                forall|k: Seq<char>| #[trigger] self.inner@.contains_key(k) ==> day_in_range(self.inner@[k].date as int),
                forall|j: int| 0 <= j < i ==> (#[trigger] out@[j]).symbol@ == self.inner.items()[j].0@
                    && completed_bar_ok(out@[j], out@[j].symbol@, self.inner.items()[j].1),
            decreases n - i,
        {
            let item = self.inner.item(i);
            proof {
                crate::symbol_map::lemma_entries_at(self.inner.items(), i as int);
            }
            out.push(completed(&item.0, item.1));
            i = i + 1;
        }
        proof {
            let s = self.inner.items();
            assert forall|a: int| 0 <= a < out@.len() implies self.inner@.contains_key((#[trigger] out@[a]).symbol@)
                && completed_bar_ok(out@[a], out@[a].symbol@, self.inner@[out@[a].symbol@]) by {
                crate::symbol_map::lemma_entries_at(s, a);
            }
            assert forall|a: int, b: int| 0 <= a < b < out@.len() implies (#[trigger] out@[a]).symbol@ != (#[trigger] out@[b]).symbol@ by {
                assert(s[a].0@ != s[b].0@);
            }
            lemma_items_cover(s);
        }
        self.inner = SymbolMap::new();
        out
    }

    /// Read-only view of a symbol's in-progress bar (day, OHLC) — never
    /// emitted as a completed bar.
    pub fn current(&self, symbol: &Symbol) -> (r: Option<(i64, Dec, Dec, Dec, Dec)>)
        ensures
            match r {
                Some((d, o, h, l, c)) => self.partials().contains_key(symbol@) && self.partials()[symbol@] == (PartialBar {
                    date: d,
                    open: o,
                    high: h,
                    low: l,
                    close: c,
                }),
                None => !self.partials().contains_key(symbol@),
            },
    {
        match self.inner.get(symbol) {
            Some(p) => Some((p.date, p.open, p.high, p.low, p.close)),
            None => None,
        }
    }
}

/// A map built from entries with distinct tickers has one key per entry.
proof fn lemma_items_cover<V>(s: Seq<(Symbol, V)>)
    requires
        crate::symbol_map::keys_unique(s),
    ensures
        crate::symbol_map::entries_to_map(s).dom().len() == s.len(),
    decreases s.len(),
{
    let m = crate::symbol_map::entries_to_map(s);
    if s.len() == 0 {
        assert(m.dom() =~= Set::<Seq<char>>::empty());
    } else {
        let t = s.drop_last();
        lemma_items_cover(t);
        let mt = crate::symbol_map::entries_to_map(t);
        let k = s.last().0@;
        assert forall|j: int| 0 <= j < t.len() implies #[trigger] t[j].0@ != k by {
            assert(s[j].0@ != s[s.len() - 1].0@);
        }
        assert(!mt.contains_key(k));
        assert(m.dom() =~= mt.dom().insert(k)) by {
            assert forall|q: Seq<char>| #[trigger] m.dom().contains(q) == mt.dom().insert(k).contains(q) by {
                if m.dom().contains(q) && q != k {
                    let c = choose|x: int| 0 <= x < s.len() && #[trigger] s[x].0@ == q;
                    assert(t[c].0@ == q);
                }
                if mt.dom().contains(q) {
                    let c = choose|x: int| 0 <= x < t.len() && #[trigger] t[x].0@ == q;
                    assert(s[c].0@ == q);
                }
                if q == k {
                    assert(s[s.len() - 1].0@ == q);
                }
            }
        }
        lemma_map_finite(t);
    }
}

proof fn lemma_map_finite<V>(s: Seq<(Symbol, V)>)
    ensures
        crate::symbol_map::entries_to_map(s).dom().finite(),
{
    let m = crate::symbol_map::entries_to_map(s);
    let f = Seq::new(s.len(), |i: int| s[i].0@).to_set();
    assert(m.dom().subset_of(f)) by {
        assert forall|q: Seq<char>| m.dom().contains(q) implies f.contains(q) by {
            let c = choose|x: int| 0 <= x < s.len() && #[trigger] s[x].0@ == q;
            assert(Seq::new(s.len(), |i: int| s[i].0@)[c] == q);
        }
    }
    vstd::set_lib::lemma_set_subset_finite(f, m.dom());
}

} // verus!
