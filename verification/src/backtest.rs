//! Backtesting engine — event simulation over historical bars.
//!
//! The feed is strictly sequential: `bar_at` refuses any bar the cursor
//! has not passed. A run shows the strategy, at each bar, the history of
//! the bars before it (`shown_history`), which holds only earlier closes
//! (`history_shows_only_earlier_closes`). Costs (commission both sides,
//! securities tax on sells) enter exact-decimal cash accounting per bar.

use vstd::prelude::*;
use chrono::{DateTime, Utc};
use crate::broker::{OrderRequest, limit_crosses, crosses};
use crate::broker::mock::{
    MockBroker, MockView, ReportView, ack_for, begins, lemma_ack_for_push, lemma_report_for_index, report_for, venue_after_submit,
};
use crate::decimal::{
    Dec, dec_of_int, dec_sum, decimal_checked_add, decimal_checked_mul, decimal_checked_sub, sum_all,
};
use crate::domain::order::{Order, OrderStatus, OrderView, shape_error};
use crate::domain::portfolio::{Fill, FillOutcome, Portfolio, PositionView, fill_outcome, lookup, position_views};
use crate::history::{HistoryWindow, keep_last};
use crate::risk::{RiskManager, gross_exposure, gross_sum, risk_outcome};
use crate::strategy::{IntentView, MarketSnapshot, OrderIntent, Strategy, intent_views};
use crate::symbol_map::SymbolMap;
use crate::text::{u128_text, zero_padded};
use crate::types::{OrderSide, Price, Quantity, Quote, Symbol, Timestamp};

verus! {

/// One historical bar (daily or intraday — the engine is agnostic).
#[derive(Debug)]
pub struct Bar {
    pub symbol: Symbol,
    pub timestamp: Timestamp,
    pub close: Price,
}

pub struct BarView {
    pub symbol: Seq<char>,
    pub timestamp: Timestamp,
    pub close: Dec,
}

impl View for Bar {
    type V = BarView;

    open spec fn view(&self) -> BarView {
        BarView { symbol: self.symbol@, timestamp: self.timestamp, close: self.close }
    }
}

impl Bar {
    pub fn duplicate(&self) -> (r: Bar)
        ensures
            r@ == self@,
    {
        Bar { symbol: self.symbol.duplicate(), timestamp: self.timestamp, close: self.close }
    }
}

pub open spec fn bar_views(s: Seq<Bar>) -> Seq<BarView> {
    Seq::new(s.len(), |i: int| s[i]@)
}

/// `x` placed after every bar not later than it (a stable insertion).
pub open spec fn time_insert(s: Seq<BarView>, x: BarView) -> Seq<BarView>
    decreases s.len(),
{
    if s.len() == 0 {
        seq![x]
    } else if x.timestamp < s[0].timestamp {
        seq![x] + s
    } else {
        seq![s[0]] + time_insert(s.skip(1), x)
    }
}

/// The bars in time order; bars with equal timestamps keep their order.
pub open spec fn time_sorted(s: Seq<BarView>) -> Seq<BarView>
    decreases s.len(),
{
    if s.len() == 0 {
        Seq::empty()
    } else {
        time_insert(time_sorted(s.drop_last()), s.last())
    }
}

proof fn lemma_time_insert_len(s: Seq<BarView>, x: BarView)
    ensures
        time_insert(s, x).len() == s.len() + 1,
    decreases s.len(),
{
    if s.len() > 0 && !(x.timestamp < s[0].timestamp) {
        lemma_time_insert_len(s.skip(1), x);
    }
}

pub proof fn lemma_time_sorted_len(s: Seq<BarView>)
    ensures
        time_sorted(s).len() == s.len(),
    decreases s.len(),
{
    if s.len() > 0 {
        lemma_time_sorted_len(s.drop_last());
        lemma_time_insert_len(time_sorted(s.drop_last()), s.last());
    }
}

proof fn lemma_time_insert_at(s: Seq<BarView>, x: BarView, i: int)
    requires
        0 <= i <= s.len(),
        forall|j: int| 0 <= j < i ==> !(x.timestamp < #[trigger] s[j].timestamp),
        i < s.len() ==> x.timestamp < s[i].timestamp,
    ensures
        time_insert(s, x) == s.insert(i, x),
    decreases s.len(),
{
    if s.len() == 0 {
        assert(s.insert(i, x) =~= seq![x]);
    } else if i == 0 {
        assert(s.insert(0, x) =~= seq![x] + s);
    } else {
        let t = s.skip(1);
        assert forall|j: int| 0 <= j < i - 1 implies !(x.timestamp < #[trigger] t[j].timestamp) by {
            assert(t[j] == s[j + 1]);
        }
        if i - 1 < t.len() {
            assert(t[i - 1] == s[i]);
        }
        lemma_time_insert_at(t, x, i - 1);
        assert(s.insert(i, x) =~= seq![s[0]] + t.insert(i - 1, x));
    }
}

#[derive(Debug, Clone, Copy)]
pub struct BacktestConfig {
    pub initial_cash: Dec,
    pub commission_rate: Dec,
    pub tax_rate: Dec,
    pub history_capacity: usize,
}

impl BacktestConfig {
    /// 100,000,000 KRW, 0.015% commission, 0.15% tax on sells, 120 bars.
    pub fn default_config() -> (r: BacktestConfig)
        ensures
            r.initial_cash == dec_of_int(100_000_000),
            r.commission_rate.mant() == 15 && r.commission_rate.sc() == 5,
            r.tax_rate.mant() == 15 && r.tax_rate.sc() == 4,
            r.history_capacity == 120,
    {
        BacktestConfig {
            initial_cash: Dec::from_i64(100_000_000),
            commission_rate: Dec::from_parts(15, 5).unwrap(),
            tax_rate: Dec::from_parts(15, 4).unwrap(),
            history_capacity: 120,
        }
    }
}

#[derive(Debug)]
pub struct FillRecord {
    pub client_order_id: String,
    pub symbol: Symbol,
    pub side: OrderSide,
    pub quantity: Quantity,
    pub price: Price,
    pub commission: Dec,
    pub tax: Dec,
    pub timestamp: Timestamp,
}

pub struct BacktestResult {
    pub cash: Dec,
    pub total_commission: Dec,
    pub total_tax: Dec,
    pub equity: Dec,
    pub equity_curve: Vec<(Timestamp, Dec)>,
    pub fills: Vec<FillRecord>,
    /// What happened at each bar (proof only).
    pub steps: Ghost<Seq<BarStep>>,
}

/// One order of a run: the request sent, and the portfolio, venue and
/// cash it met and left; `booked` is the fill it booked, if any.
pub struct OrderStep {
    pub request: OrderRequest,
    pub portfolio_before: Portfolio,
    pub portfolio_after: Portfolio,
    pub venue_before: MockView,
    pub venue_after: MockView,
    pub cash_before: Dec,
    pub cash_after: Dec,
    pub booked: Option<FillView>,
}

/// One bar of a run: the snapshot shown to the strategy, the quote list
/// the risk layer and the valuation saw, the orders sent (numbered from
/// `first_order + 1`), and the portfolio, venue and cash at its start
/// (after the bar's price is set) and at its end.
pub struct BarStep {
    pub snapshot: MarketSnapshot,
    pub quotes: Seq<Quote>,
    pub first_order: nat,
    pub orders: Seq<OrderStep>,
    pub portfolio_start: Portfolio,
    pub portfolio_end: Portfolio,
    pub venue_start: MockView,
    pub venue_end: MockView,
    pub cash_start: Dec,
    pub cash_end: Dec,
}

/// The last bar of `symbol` among `seen`.
pub open spec fn latest_bar(seen: Seq<BarView>, symbol: Seq<char>) -> Option<BarView>
    decreases seen.len(),
{
    if seen.len() == 0 {
        None
    } else if seen.last().symbol == symbol {
        Some(seen.last())
    } else {
        latest_bar(seen.drop_last(), symbol)
    }
}

/// A quote list as a run keeps it after the bars `seen`: each symbol seen
/// once, quoted at its latest bar's close and instant.
pub open spec fn quotes_of(quotes: Seq<Quote>, seen: Seq<BarView>) -> bool {
    &&& forall|i: int, j: int| 0 <= i < j < quotes.len() ==> #[trigger] quotes[i].symbol@ != #[trigger] quotes[j].symbol@
    &&& forall|j: int| 0 <= j < quotes.len() ==> (latest_bar(seen, (#[trigger] quotes[j]).symbol@) matches Some(b)
        && quotes[j].last_price == b.close && quotes[j].timestamp == b.timestamp)
    &&& forall|sym: Seq<char>| #[trigger] latest_bar(seen, sym) is Some ==> exists|j: int| 0 <= j < quotes.len() && #[trigger] quotes[j].symbol@ == sym
}

/// The quotes held per symbol are those of its latest bar among `seen`.
pub open spec fn quote_map_of(m: Map<Seq<char>, Quote>, seen: Seq<BarView>) -> bool {
    &&& forall|sym: Seq<char>| #[trigger] m.contains_key(sym) == latest_bar(seen, sym) is Some
    &&& forall|sym: Seq<char>| #[trigger] m.contains_key(sym) ==> (latest_bar(seen, sym) matches Some(b) && m[sym].symbol@ == sym
        && m[sym].last_price == b.close && m[sym].timestamp == b.timestamp)
}

proof fn lemma_quote_list(items: Seq<(Symbol, Quote)>, quotes: Seq<Quote>, seen: Seq<BarView>)
    requires
        crate::symbol_map::keys_unique(items),
        quote_map_of(crate::symbol_map::entries_to_map(items), seen),
        quotes.len() == items.len(),
        forall|i: int| 0 <= i < quotes.len() ==> (#[trigger] quotes[i]).symbol@ == items[i].1.symbol@
            && quotes[i].last_price == items[i].1.last_price && quotes[i].timestamp == items[i].1.timestamp,
    ensures
        quotes_of(quotes, seen),
{
    let m = crate::symbol_map::entries_to_map(items);
    assert forall|j: int| 0 <= j < quotes.len() implies (#[trigger] quotes[j]).symbol@ == items[j].0@ && (latest_bar(seen, quotes[j].symbol@) matches Some(b)
        && quotes[j].last_price == b.close && quotes[j].timestamp == b.timestamp) by {
        crate::symbol_map::lemma_entries_at(items, j);
        assert(m.contains_key(items[j].0@));
    }
    assert forall|i: int, j: int| 0 <= i < j < quotes.len() implies #[trigger] quotes[i].symbol@ != #[trigger] quotes[j].symbol@ by {
        assert(quotes[i].symbol@ == items[i].0@);
        assert(quotes[j].symbol@ == items[j].0@);
    }
    assert forall|sym: Seq<char>| #[trigger] latest_bar(seen, sym) is Some implies exists|j: int| 0 <= j < quotes.len() && #[trigger] quotes[j].symbol@ == sym by {
        assert(m.contains_key(sym));
        let j = choose|j: int| 0 <= j < items.len() && #[trigger] items[j].0@ == sym;
        assert(quotes[j].symbol@ == items[j].0@);
    }
}

/// The request a run builds from an intent as its `seq`-th order.
pub open spec fn request_for(request: OrderRequest, intent: IntentView, seq: nat) -> bool {
    &&& request.client_order_id@ == backtest_order_id(seq)
    &&& request.symbol@ == intent.symbol
    &&& request.side == intent.side
    &&& request.order_type == intent.order_type
    &&& request.quantity == intent.quantity
    &&& request.limit_price == intent.limit_price
}

/// The venue as a bar leaves it before any order: with the bar's close
/// as its symbol's price where bars price the venue.
pub open spec fn priced_venue(m: MockView, b: BarView, pricing: bool) -> MockView {
    if pricing {
        MockView { prices: m.prices.insert(b.symbol, b.close), ..m }
    } else {
        m
    }
}

/// The fills booked by a bar's orders, in order.
pub open spec fn booked_in(orders: Seq<OrderStep>) -> Seq<FillView>
    decreases orders.len(),
{
    if orders.len() == 0 {
        Seq::empty()
    } else {
        let rest = booked_in(orders.drop_last());
        match orders.last().booked {
            Some(f) => rest.push(f),
            None => rest,
        }
    }
}

/// The fills booked over the bars, in order.
pub open spec fn run_fills(steps: Seq<BarStep>) -> Seq<FillView>
    decreases steps.len(),
{
    if steps.len() == 0 {
        Seq::empty()
    } else {
        run_fills(steps.drop_last()) + booked_in(steps.last().orders)
    }
}

/// A bar's equity: its closing cash plus its positions valued at its
/// quotes.
pub open spec fn equity_of(st: BarStep) -> Option<Dec> {
    match gross_sum(st.portfolio_end.entries(), st.quotes) {
        Some(v) => decimal_checked_add(st.cash_end, v),
        None => None,
    }
}

/// How many orders the bars sent.
pub open spec fn orders_sent(steps: Seq<BarStep>) -> nat {
    if steps.len() == 0 {
        0
    } else {
        steps.last().first_order + steps.last().orders.len()
    }
}

#[derive(Debug, Clone, Copy)]
pub struct LookaheadError {
    pub index: usize,
    pub cursor: usize,
}

/// Sequential bar cursor; future bars are unreachable by construction.
pub struct BacktestFeed {
    bars: Vec<Bar>,
    cursor: usize,
}

impl BacktestFeed {
    #[verifier::type_invariant]
    spec fn in_range(self) -> bool {
        self.cursor <= self.bars@.len()
    }

    /// All bars, in time order.
    pub closed spec fn timeline(self) -> Seq<BarView> {
        bar_views(self.bars@)
    }

    pub closed spec fn position(self) -> nat {
        self.cursor as nat
    }

    pub fn new(bars: Vec<Bar>) -> (r: BacktestFeed)
        ensures
            r.timeline() == time_sorted(bar_views(bars@)),
            r.position() == 0,
    {
        let mut sorted: Vec<Bar> = Vec::new();
        let mut k: usize = 0;
        while k < bars.len()
            invariant
                0 <= k <= bars@.len(),
                bar_views(sorted@) == time_sorted(bar_views(bars@).take(k as int)),
            decreases bars.len() - k,
        {
            let ghost before = bar_views(sorted@);
            let ghost x = bars@[k as int]@;
            let mut i: usize = 0;
            while i < sorted.len()
                invariant
                    0 <= i <= sorted@.len(),
                    k < bars@.len(),
                    before == bar_views(sorted@),
                    x == bars@[k as int]@,
                    forall|j: int| 0 <= j < i ==> !(x.timestamp < #[trigger] before[j].timestamp),
                ensures
                    0 <= i <= sorted@.len(),
                    forall|j: int| 0 <= j < i ==> !(x.timestamp < #[trigger] before[j].timestamp),
                    i < sorted@.len() ==> x.timestamp < before[i as int].timestamp,
                decreases sorted.len() - i,
            {
                if bars[k].timestamp < sorted[i].timestamp {
                    break;
                }
                i = i + 1;
            }
            proof {
                lemma_time_insert_at(before, x, i as int);
                assert(bar_views(bars@).take(k + 1).drop_last() =~= bar_views(bars@).take(k as int));
            }
            sorted.insert(i, bars[k].duplicate());
            proof {
                assert(bar_views(sorted@) =~= before.insert(i as int, x));
            }
            k = k + 1;
        }
        proof {
            assert(bar_views(bars@).take(k as int) =~= bar_views(bars@));
        }
        BacktestFeed { bars: sorted, cursor: 0 }
    }

    pub fn has_next(&self) -> (r: bool)
        ensures
            r == (self.position() < self.timeline().len()),
    {
        self.cursor < self.bars.len()
    }

    /// The next bar, moving the cursor past it.
    pub fn advance(&mut self) -> (r: Option<Bar>)
        ensures
            final(self).timeline() == old(self).timeline(),
            old(self).position() < old(self).timeline().len() ==> (r matches Some(b) && b@ == old(self).timeline()[old(self).position() as int]
                && final(self).position() == old(self).position() + 1),
            old(self).position() >= old(self).timeline().len() ==> (r is None && final(self).position() == old(self).position()),
    {
        proof {
            use_type_invariant(&*self);
        }
        if self.cursor >= self.bars.len() {
            return None;
        }
        let bar = self.bars[self.cursor].duplicate();
        self.cursor = self.cursor + 1;
        Some(bar)
    }

    pub fn cursor(&self) -> (r: usize)
        ensures
            r == self.position(),
    {
        self.cursor
    }

    /// Only past/current bars are addressable (look-ahead guard).
    pub fn bar_at(&self, index: usize) -> (r: Result<Bar, LookaheadError>)
        ensures
            index >= self.position() ==> (r matches Err(e) && e.index == index && e.cursor == self.position()),
            index < self.position() ==> (r matches Ok(b) && b@ == self.timeline()[index as int]),
    {
        proof {
            use_type_invariant(self);
        }
        if index >= self.cursor {
            return Err(LookaheadError { index, cursor: self.cursor });
        }
        Ok(self.bars[index].duplicate())
    }
}

/// Notional, commission and tax of one fill, exact; `None` on overflow.
pub open spec fn fill_costs(quantity: i64, price: Dec, side: OrderSide, commission_rate: Dec, tax_rate: Dec) -> Option<(Dec, Dec, Dec)> {
    match decimal_checked_mul(dec_of_int(quantity as int), price) {
        None => None,
        Some(notional) => match decimal_checked_mul(notional, commission_rate) {
            None => None,
            Some(commission) => if side == OrderSide::Sell {
                match decimal_checked_mul(notional, tax_rate) {
                    Some(tax) => Some((notional, commission, tax)),
                    None => None,
                }
            } else {
                Some((notional, commission, dec_of_int(0)))
            },
        },
    }
}

/// Cash after one fill: buys pay notional and commission, sells receive the
/// notional less commission and tax.
pub open spec fn cash_step(cash: Dec, side: OrderSide, notional: Dec, commission: Dec, tax: Dec) -> Option<Dec> {
    if side == OrderSide::Buy {
        match decimal_checked_sub(cash, notional) {
            Some(c) => decimal_checked_sub(c, commission),
            None => None,
        }
    } else {
        match decimal_checked_add(cash, notional) {
            Some(c) => match decimal_checked_sub(c, commission) {
                Some(d) => decimal_checked_sub(d, tax),
                None => None,
            },
            None => None,
        }
    }
}

/// A fill's accounting values.
pub struct FillView {
    pub side: OrderSide,
    pub quantity: i64,
    pub price: Dec,
    pub commission: Dec,
    pub tax: Dec,
}

pub open spec fn fill_views(s: Seq<FillRecord>) -> Seq<FillView> {
    Seq::new(
        s.len(),
        |i: int| FillView { side: s[i].side, quantity: s[i].quantity, price: s[i].price, commission: s[i].commission, tax: s[i].tax },
    )
}

/// Cash after the fills, in order, from `initial`.
pub open spec fn cash_after(initial: Dec, fills: Seq<FillView>, commission_rate: Dec, tax_rate: Dec) -> Option<Dec>
    decreases fills.len(),
{
    if fills.len() == 0 {
        Some(initial)
    } else {
        match cash_after(initial, fills.drop_last(), commission_rate, tax_rate) {
            None => None,
            Some(cash) => {
                let f = fills.last();
                match fill_costs(f.quantity, f.price, f.side, commission_rate, tax_rate) {
                    Some((notional, commission, tax)) => cash_step(cash, f.side, notional, commission, tax),
                    None => None,
                }
            },
        }
    }
}

/// The fill carries its exact commission and tax.
pub open spec fn costed(f: FillView, commission_rate: Dec, tax_rate: Dec) -> bool {
    match fill_costs(f.quantity, f.price, f.side, commission_rate, tax_rate) {
        Some((_, c, t)) => c == f.commission && t == f.tax,
        None => false,
    }
}

/// Every fill carries its exact commission and tax.
pub open spec fn fills_costed(fills: Seq<FillView>, commission_rate: Dec, tax_rate: Dec) -> bool {
    forall|i: int| 0 <= i < fills.len() ==> costed(#[trigger] fills[i], commission_rate, tax_rate)
}

/// RFC 3339 text of an instant, as chrono renders a UTC time.
pub uninterp spec fn rfc3339_text(ts: Timestamp) -> Seq<char>;

/// chrono's `DateTime::<Utc>::from_timestamp_nanos(ts).to_rfc3339()`.
#[verifier::external_body]
fn rfc3339(ts: Timestamp) -> (r: String)
    ensures
        r@ == rfc3339_text(ts),
{
    DateTime::<Utc>::from_timestamp_nanos(ts).to_rfc3339()
}

/// `"bt-{n:04}"`.
pub open spec fn backtest_order_id(n: nat) -> Seq<char> {
    "bt-"@ + crate::text::zero_pad(crate::text::nat_digits(n), 4)
}

/// The venue's prices after each bar in `timeline` set its symbol's price
/// to its close.
pub open spec fn priced(prices: Map<Seq<char>, Dec>, timeline: Seq<BarView>) -> Map<Seq<char>, Dec>
    decreases timeline.len(),
{
    if timeline.len() == 0 {
        prices
    } else {
        priced(prices, timeline.drop_last()).insert(timeline.last().symbol, timeline.last().close)
    }
}

/// The report the venue holds for the order `id`, where it filled
/// something.
pub open spec fn venue_fill(m: MockView, id: Seq<char>) -> Option<ReportView> {
    match ack_for(m.acks, id) {
        Some(b) => match report_for(m.reports, b) {
            Some((_, rep)) => if rep.filled_quantity > 0 { Some(rep) } else { None },
            None => None,
        },
        None => None,
    }
}

/// The fill a report books: its filled quantity, at its average price or
/// else at `close`.
pub open spec fn booked_price(rep: ReportView, close: Dec) -> Dec {
    match rep.average_fill_price {
        Some(p) => p,
        None => close,
    }
}

/// The venue holds a report of an order that filled something.
pub open spec fn reported_fill(reports: Seq<ReportView>) -> bool {
    exists|j: int| 0 <= j < reports.len() && (#[trigger] reports[j]).filled_quantity > 0
}

proof fn lemma_reported_fill_grows(a: Seq<ReportView>, b: Seq<ReportView>)
    requires
        begins(a, b),
        reported_fill(a),
    ensures
        reported_fill(b),
{
    let j = choose|j: int| 0 <= j < a.len() && (#[trigger] a[j]).filled_quantity > 0;
    assert(b[j] == a[j]);
}

/// The closes a strategy may see after the bars of `seen` completed: per
/// symbol, its closes in time order, the last `cap` of them.
pub open spec fn shown_history(seen: Seq<BarView>, cap: nat) -> Map<Seq<char>, Seq<Dec>>
    decreases seen.len(),
{
    if seen.len() == 0 {
        Map::empty()
    } else {
        let h = shown_history(seen.drop_last(), cap);
        let b = seen.last();
        h.insert(
            b.symbol,
            keep_last((if h.contains_key(b.symbol) { h[b.symbol] } else { Seq::<Dec>::empty() }).push(b.close), cap),
        )
    }
}

/// The closes of `symbol` among `seen`, in order.
pub open spec fn closes_of(seen: Seq<BarView>, symbol: Seq<char>) -> Seq<Dec>
    decreases seen.len(),
{
    if seen.len() == 0 {
        Seq::empty()
    } else if seen.last().symbol == symbol {
        closes_of(seen.drop_last(), symbol).push(seen.last().close)
    } else {
        closes_of(seen.drop_last(), symbol)
    }
}

proof fn lemma_keep_last_push(s: Seq<Dec>, x: Dec, cap: nat)
    ensures
        keep_last(keep_last(s, cap).push(x), cap) =~= keep_last(s.push(x), cap),
{
    let t = keep_last(s, cap);
    if s.len() > cap {
        assert(t.len() == cap);
        assert(s.push(x).len() > cap);
        assert(t.push(x).len() > cap);
        assert forall|i: int| 0 <= i < cap implies #[trigger] t.push(x).skip(t.push(x).len() - cap)[i]
            == s.push(x).skip(s.push(x).len() - cap)[i] by {
            if i < cap - 1 {
                assert(t[i + 1] == s[s.len() - cap + i + 1]);
            }
        }
    }
}

/// No look-ahead: after the bars of `seen`, the history shown for a
/// symbol is the last `cap` of that symbol's closes among `seen`, oldest
/// first, and nothing is shown for a symbol without a bar there. In a run
/// the history handed to the strategy at a bar is that of the bars before
/// it, never its own close or a later one.
pub proof fn history_shows_only_earlier_closes(seen: Seq<BarView>, cap: nat, symbol: Seq<char>)
    ensures
        shown_history(seen, cap).contains_key(symbol) ==> shown_history(seen, cap)[symbol] == keep_last(
            closes_of(seen, symbol),
            cap,
        ),
        !shown_history(seen, cap).contains_key(symbol) ==> closes_of(seen, symbol).len() == 0,
    decreases seen.len(),
{
    if seen.len() > 0 {
        let rest = seen.drop_last();
        history_shows_only_earlier_closes(rest, cap, symbol);
        if seen.last().symbol == symbol {
            let h = shown_history(rest, cap);
            if h.contains_key(symbol) {
                lemma_keep_last_push(closes_of(rest, symbol), seen.last().close, cap);
            } else {
                assert(closes_of(rest, symbol) =~= Seq::<Dec>::empty());
                assert(Seq::<Dec>::empty().push(seen.last().close) =~= closes_of(rest, symbol).push(seen.last().close));
            }
        }
    }
}

/// Room for the order counter: at most `usize::MAX` orders a bar, over at
/// most `usize::MAX` bars, fit in a `u128`.
proof fn lemma_counter_room(pos: int, k: int, n: int)
    requires
        0 <= pos < n <= usize::MAX,
        0 <= k < usize::MAX,
    ensures
        pos * usize::MAX + k + 1 <= u128::MAX,
        pos * usize::MAX + usize::MAX == (pos + 1) * usize::MAX,
{
    assert(pos * usize::MAX <= (usize::MAX - 1) * usize::MAX) by (nonlinear_arith)
        requires
            0 <= pos <= usize::MAX - 1,
    ;
    assert((usize::MAX - 1) * usize::MAX + usize::MAX <= u128::MAX) by (nonlinear_arith);
    assert(pos * usize::MAX + usize::MAX == (pos + 1) * usize::MAX) by (nonlinear_arith);
}

/// Runs a strategy over bars with fees, tax, and optional risk checks,
/// against the in-memory venue.
pub struct BacktestEngine<S> {
    strategy: S,
    config: BacktestConfig,
    risk: Option<RiskManager>,
    /// Each consumed bar sets the venue's price for its symbol.
    bar_pricing: bool,
}

impl<S> BacktestEngine<S> {
    #[verifier::type_invariant]
    spec fn capacity_positive(self) -> bool {
        self.config.history_capacity > 0
    }
}

impl<S: Strategy> BacktestEngine<S> {
    pub closed spec fn settings(self) -> BacktestConfig {
        self.config
    }

    /// Whether each consumed bar sets the venue's price for its symbol.
    pub closed spec fn prices_bars(self) -> bool {
        self.bar_pricing
    }

    pub fn new(strategy: S, config: BacktestConfig) -> (r: BacktestEngine<S>)
        requires
            config.history_capacity > 0,
        ensures
            r.settings() == config,
            !r.prices_bars(),
            r.strategy_spec() == strategy,
            r.risk_free(),
    {
        BacktestEngine { strategy, config, risk: None, bar_pricing: false }
    }

    /// Each consumed bar also sets the venue's price for its symbol.
    pub fn with_bar_pricing(self) -> (r: BacktestEngine<S>)
        ensures
            r.settings() == self.settings(),
            r.prices_bars(),
            r.strategy_spec() == self.strategy_spec(),
            r.risk_free() == self.risk_free(),
    {
        proof {
            use_type_invariant(&self);
        }
        BacktestEngine { strategy: self.strategy, config: self.config, risk: self.risk, bar_pricing: true }
    }

    pub fn with_risk(strategy: S, config: BacktestConfig, risk: RiskManager) -> (r: BacktestEngine<S>)
        requires
            config.history_capacity > 0,
        ensures
            r.settings() == config,
            !r.prices_bars(),
    {
        BacktestEngine { strategy, config, risk: Some(risk), bar_pricing: false }
    }

    fn build_request(&self, order_seq: u128, intent: &OrderIntent) -> (r: OrderRequest)
        ensures
            r.client_order_id@ == backtest_order_id(order_seq as nat),
            r.symbol@ == intent.symbol@,
            r.side == intent.side,
            r.order_type == intent.order_type,
            r.quantity == intent.quantity,
            r.limit_price == intent.limit_price,
    {
        let digits = u128_text(order_seq);
        let padded = zero_padded(digits.as_str(), 4);
        let mut id = String::from_str("bt-");
        id.append(padded.as_str());
        proof {
            reveal_strlit("bt-");
        }
        OrderRequest {
            client_order_id: id,
            symbol: intent.symbol.duplicate(),
            side: intent.side,
            order_type: intent.order_type,
            quantity: intent.quantity,
            limit_price: intent.limit_price,
        }
    }

    /// The risk gate: with a risk manager, the order must form a valid
    /// order and pass its checks as of `now`.
    /// The strategy the engine runs.
    pub closed spec fn strategy_spec(self) -> S {
        self.strategy
    }

    /// The engine runs without a risk layer.
    pub closed spec fn risk_free(self) -> bool {
        self.risk is None
    }

    /// What one order does, given the bar's close and quotes: the risk
    /// layer may stop it (nothing changes); else the venue takes it, and a
    /// fill the venue reports is booked at the report's average price (else
    /// the close) with its commission and tax, moving cash and portfolio.
    #[verifier::opaque]
    pub open spec fn order_step_ok(self, o: OrderStep, close: Dec, quotes: Seq<Quote>, now: Timestamp) -> bool {
        if !self.admits(o.request, o.portfolio_before, quotes, now) {
            &&& o.venue_after == o.venue_before
            &&& o.cash_after == o.cash_before
            &&& o.portfolio_after == o.portfolio_before
            &&& o.booked is None
        } else {
            &&& o.venue_after == venue_after_submit(o.venue_before, o.request, now)
            &&& match venue_fill(o.venue_after, o.request.client_order_id@) {
                None => o.cash_after == o.cash_before && o.portfolio_after == o.portfolio_before && o.booked is None,
                Some(rep) => {
                    let price = booked_price(rep, close);
                    match fill_costs(rep.filled_quantity, price, o.request.side, self.settings().commission_rate, self.settings().tax_rate) {
                        None => false,
                        Some((notional, commission, tax)) => match cash_step(o.cash_before, o.request.side, notional, commission, tax) {
                            None => false,
                            Some(next) => {
                                &&& o.cash_after == next
                                &&& o.booked == Some(FillView { side: o.request.side, quantity: rep.filled_quantity, price, commission, tax })
                                &&& o.portfolio_after@ == match fill_outcome(
                                    lookup(o.portfolio_before@, o.request.symbol@),
                                    o.request.symbol@,
                                    o.request.side,
                                    rep.filled_quantity,
                                    price,
                                ) {
                                    FillOutcome::Updated(u) => o.portfolio_before@.insert(o.request.symbol@, u),
                                    _ => o.portfolio_before@,
                                }
                            },
                        },
                    }
                },
            }
        }
    }

    /// A bar's orders: one per intent, numbered from `first + 1`, each a
    /// step from where the previous one left off.
    #[verifier::opaque]
    pub open spec fn orders_ok(
        self,
        orders: Seq<OrderStep>,
        intents: Seq<IntentView>,
        first: nat,
        close: Dec,
        quotes: Seq<Quote>,
        now: Timestamp,
        portfolio: Portfolio,
        venue: MockView,
        cash: Dec,
    ) -> bool {
        &&& orders.len() <= intents.len()
        &&& forall|k: int| 0 <= k < orders.len() ==> self.order_step_ok(#[trigger] orders[k], close, quotes, now)
            && request_for(orders[k].request, intents[k], (first + k + 1) as nat)
        &&& orders.len() > 0 ==> orders[0].portfolio_before == portfolio && orders[0].venue_before == venue
            && orders[0].cash_before == cash
        &&& forall|k: int| 0 < k < orders.len() ==> (#[trigger] orders[k]).portfolio_before == orders[k - 1].portfolio_after
            && orders[k].venue_before == orders[k - 1].venue_after && orders[k].cash_before == orders[k - 1].cash_after
    }

    /// One bar of a run after the bars `seen`: the strategy is shown the
    /// history of `seen` only, the bar's instant and the positions held;
    /// every intent it decides becomes an order; the bar ends where its
    /// last order left off.
    #[verifier::opaque]
    pub open spec fn bar_step_ok(self, st: BarStep, seen: Seq<BarView>, b: BarView, now: Timestamp) -> bool {
        let shown = shown_history(seen, self.settings().history_capacity as nat);
        let h = st.snapshot.history@;
        let intents = self.strategy_spec().decision_for(st.snapshot).intents;
        &&& forall|i: int, j: int| 0 <= i < j < h.len() ==> #[trigger] h[i].0@ != #[trigger] h[j].0@
        &&& forall|i: int| 0 <= i < h.len() ==> shown.contains_key(#[trigger] h[i].0@) && shown[h[i].0@] == h[i].1@
        &&& forall|k: Seq<char>| shown.contains_key(k) ==> exists|i: int| 0 <= i < h.len() && #[trigger] h[i].0@ == k
        &&& st.snapshot.as_of@ == rfc3339_text(b.timestamp)
        &&& quotes_of(st.quotes, seen.push(b))
        &&& quotes_of(st.snapshot.quotes@, seen.push(b))
        &&& position_views(st.snapshot.positions@) == st.portfolio_start.entries()
        &&& st.orders.len() == intents.len()
        &&& self.orders_ok(st.orders, intents, st.first_order, b.close, st.quotes, now, st.portfolio_start, st.venue_start, st.cash_start)
        &&& st.orders.len() == 0 ==> st.portfolio_end == st.portfolio_start && st.venue_end == st.venue_start
            && st.cash_end == st.cash_start
        &&& st.orders.len() > 0 ==> st.portfolio_end == st.orders.last().portfolio_after && st.venue_end
            == st.orders.last().venue_after && st.cash_end == st.orders.last().cash_after
    }

    /// The bars of a run over `timeline`, from the venue `venue`: each bar
    /// is a step, and each starts where the previous one ended.
    pub open spec fn steps_ok(self, steps: Seq<BarStep>, timeline: Seq<BarView>, venue: MockView, now: Timestamp) -> bool {
        &&& steps.len() <= timeline.len()
        &&& forall|i: int| 0 <= i < steps.len() ==> self.bar_step_ok(#[trigger] steps[i], timeline.take(i), timeline[i], now)
        &&& steps.len() > 0 ==> steps[0].first_order == 0 && steps[0].cash_start == self.settings().initial_cash
            && steps[0].portfolio_start@ == Map::<Seq<char>, PositionView>::empty()
            && steps[0].venue_start == priced_venue(venue, timeline[0], self.prices_bars())
        &&& forall|i: int| 0 < i < steps.len() ==> (#[trigger] steps[i]).first_order == steps[i - 1].first_order
            + steps[i - 1].orders.len() && steps[i].cash_start == steps[i - 1].cash_end && steps[i].portfolio_start
            == steps[i - 1].portfolio_end && steps[i].venue_start == priced_venue(steps[i - 1].venue_end, timeline[i], self.prices_bars())
    }

    /// Whether the risk layer (if any) lets `order` through.
    pub closed spec fn admits(self, order: OrderRequest, portfolio: Portfolio, quotes: Seq<Quote>, now: Timestamp) -> bool {
        match self.risk {
            Some(risk) => shape_error(order.quantity, order.order_type, order.limit_price, 0) is None
                && risk_outcome(
                    risk.limits(),
                    risk@.active,
                    risk@.reason,
                    OrderView {
                        client_order_id: order.client_order_id@,
                        symbol: order.symbol@,
                        side: order.side,
                        order_type: order.order_type,
                        quantity: order.quantity,
                        limit_price: order.limit_price,
                        status: OrderStatus::Pending,
                        filled_quantity: 0,
                    },
                    portfolio@,
                    portfolio.entries(),
                    quotes,
                    now,
                ) is Accepted,
            None => true,
        }
    }

    fn preflight(&self, order: &OrderRequest, portfolio: &Portfolio, quotes: &Vec<Quote>, now: Timestamp) -> (r: bool)
        ensures
            r == self.admits(*order, *portfolio, quotes@, now),
    {
        match &self.risk {
            Some(risk) => {
                let domain_order = match Order::new(
                    order.client_order_id.as_str(),
                    order.symbol.duplicate(),
                    order.side,
                    order.order_type,
                    order.quantity,
                    order.limit_price,
                ) {
                    Ok(o) => o,
                    Err(_) => return false,
                };
                risk.check_order(&domain_order, portfolio, quotes, now).is_ok()
            },
            None => true,
        }
    }

    /// What the run does with one order of a decision: the risk layer may
    /// stop it; else it goes to the venue, and a fill the venue reports for
    /// it is booked at the report's average price (else `close`), with its
    /// commission and tax, moving `cash` and `portfolio`, and recorded at
    /// `at`. `false` when an exact amount overflows; nothing is booked then.
    fn trade(
        &self,
        order: &OrderRequest,
        close: Dec,
        at: Timestamp,
        quotes: &Vec<Quote>,
        now: Timestamp,
        cash: &mut Dec,
        portfolio: &mut Portfolio,
        fills: &mut Vec<FillRecord>,
        broker: &mut MockBroker,
    ) -> (ok: bool)
        ensures
            final(broker)@.prices == old(broker)@.prices,
            begins(old(broker)@.acks, final(broker)@.acks),
            begins(old(broker)@.reports, final(broker)@.reports),
            !self.admits(*order, *old(portfolio), quotes@, now) ==> ok && final(broker)@ == old(broker)@,
            !ok || !self.admits(*order, *old(portfolio), quotes@, now) || venue_fill(final(broker)@, order.client_order_id@) is None
                ==> *final(cash) == *old(cash) && final(fills)@ == old(fills)@ && final(portfolio)@ == old(portfolio)@
                && final(portfolio).entries() == old(portfolio).entries(),
            self.admits(*order, *old(portfolio), quotes@, now) && venue_fill(final(broker)@, order.client_order_id@) is None ==> ok,
            ok ==> self.order_step_ok(
                (OrderStep {
                    request: *order,
                    portfolio_before: *old(portfolio),
                    portfolio_after: *final(portfolio),
                    venue_before: old(broker)@,
                    venue_after: final(broker)@,
                    cash_before: *old(cash),
                    cash_after: *final(cash),
                    booked: if final(fills)@.len() > old(fills)@.len() {
                        Some(fill_views(final(fills)@).last())
                    } else {
                        None
                    },
                }),
                close,
                quotes@,
                now,
            ),
            ok ==> final(fills)@ == old(fills)@ || (final(fills)@.len() == old(fills)@.len() + 1 && final(fills)@.drop_last() == old(fills)@
                && final(fills)@.last().timestamp == at),
            self.admits(*order, *old(portfolio), quotes@, now) ==> match venue_fill(final(broker)@, order.client_order_id@) {
                None => true,
                Some(rep) => {
                    let price = booked_price(rep, close);
                    &&& reported_fill(final(broker)@.reports)
                    &&& match fill_costs(rep.filled_quantity, price, order.side, self.settings().commission_rate, self.settings().tax_rate) {
                        None => !ok,
                        Some((notional, commission, tax)) => match cash_step(*old(cash), order.side, notional, commission, tax) {
                            None => !ok,
                            Some(next) => {
                                &&& ok
                                &&& *final(cash) == next
                                &&& final(fills)@.drop_last() == old(fills)@
                                &&& final(fills)@.len() == old(fills)@.len() + 1
                                &&& fill_views(final(fills)@).last() == (FillView {
                                    side: order.side,
                                    quantity: rep.filled_quantity,
                                    price,
                                    commission,
                                    tax,
                                })
                                &&& final(fills)@.last().timestamp == at
                                &&& final(fills)@.last().client_order_id@ == order.client_order_id@
                                &&& final(fills)@.last().symbol@ == order.symbol@
                                &&& final(portfolio)@ == match fill_outcome(
                                    lookup(old(portfolio)@, order.symbol@),
                                    order.symbol@,
                                    order.side,
                                    rep.filled_quantity,
                                    price,
                                ) {
                                    FillOutcome::Updated(u) => old(portfolio)@.insert(order.symbol@, u),
                                    _ => old(portfolio)@,
                                }
                            },
                        },
                    }
                },
            },
    {
        proof {
            reveal(BacktestEngine::order_step_ok);
        }
        let commission_rate = self.config.commission_rate;
        let tax_rate = self.config.tax_rate;
        if !self.preflight(order, portfolio, quotes, now) {
            return true;
        }
        let ghost m = broker@;
        let submitted = broker.submit_order(order, now);
        let ack = match submitted {
            Ok(a) => a,
            Err(_) => return true,
        };
        proof {
            if ack_for(m.acks, order.client_order_id@) is None {
                lemma_ack_for_push(m.acks, order.client_order_id@, ack.broker_order_id@);
            }
            assert(ack_for(broker@.acks, order.client_order_id@) == Some(ack.broker_order_id@));
        }
        let report = match broker.execution_report(ack.broker_order_id.as_str()) {
            Ok(rep) => rep,
            Err(_) => return true,
        };
        if report.filled_quantity <= 0 {
            return true;
        }
        proof {
            lemma_report_for_index(broker@.reports, ack.broker_order_id@);
            let (i, rep) = report_for(broker@.reports, ack.broker_order_id@).unwrap();
            assert(broker@.reports[i].filled_quantity > 0);
            assert(reported_fill(broker@.reports));
        }
        let price = match report.average_fill_price {
            Some(p) => p,
            None => close,
        };
        let filled = report.filled_quantity;
        let notional = match Dec::from_i64(filled).checked_mul(&price) {
            Some(v) => v,
            None => return false,
        };
        let commission = match notional.checked_mul(&commission_rate) {
            Some(v) => v,
            None => return false,
        };
        let tax = if order.side == OrderSide::Sell {
            match notional.checked_mul(&tax_rate) {
                Some(v) => v,
                None => return false,
            }
        } else {
            Dec::zero()
        };
        let next_cash = if order.side == OrderSide::Buy {
            match cash.checked_sub(&notional) {
                Some(c) => match c.checked_sub(&commission) {
                    Some(d) => d,
                    None => return false,
                },
                None => return false,
            }
        } else {
            match cash.checked_add(&notional) {
                Some(c) => match c.checked_sub(&commission) {
                    Some(d) => match d.checked_sub(&tax) {
                        Some(e) => e,
                        None => return false,
                    },
                    None => return false,
                },
                None => return false,
            }
        };
        *cash = next_cash;
        let fill = Fill {
            client_order_id: order.client_order_id.clone(),
            symbol: order.symbol.duplicate(),
            side: order.side,
            quantity: filled,
            price,
        };
        match portfolio.apply_fill(fill) {
            Ok(next) => {
                *portfolio = next;
            },
            Err(_) => {},
        }
        fills.push(
            FillRecord {
                client_order_id: order.client_order_id.clone(),
                symbol: order.symbol.duplicate(),
                side: order.side,
                quantity: filled,
                price,
                commission,
                tax,
                timestamp: at,
            },
        );
        true
    }

    /// What a run over `bars` (in any order) from the venue `m0` at `now`
    /// gives and leaves the venue as (`m1`): `None` only after a fill was
    /// reported; otherwise a result whose steps follow the bars in time
    /// order (`steps_ok`), whose fills are the booked ones, whose equity
    /// curve holds each bar's cash plus positions valued at its quotes, with
    /// every fill costed and cash and totals following from the fills.
    pub open spec fn run_result(self, bars: Seq<BarView>, m0: MockView, now: Timestamp, r: Option<BacktestResult>, m1: MockView) -> bool {
        let timeline = time_sorted(bars);
        let config = self.settings();
        &&& begins(m0.acks, m1.acks)
        &&& begins(m0.reports, m1.reports)
        &&& r is None ==> bars.len() > 0 && reported_fill(m1.reports)
        &&& r matches Some(res) ==> {
            let steps = res.steps@;
            let fills = fill_views(res.fills@);
            &&& steps.len() == bars.len()
            &&& self.steps_ok(steps, timeline, m0, now)
            &&& fills == run_fills(steps)
            &&& forall|i: int| 0 <= i < steps.len() ==> equity_of(#[trigger] steps[i]) == Some(res.equity_curve@[i].1)
            &&& m1 == (if steps.len() == 0 { m0 } else { steps.last().venue_end })
            &&& res.cash == (if steps.len() == 0 { config.initial_cash } else { steps.last().cash_end })
            &&& res.equity_curve@.len() == bars.len()
            &&& forall|i: int| 0 <= i < res.equity_curve@.len() ==> (#[trigger] res.equity_curve@[i]).0 == timeline[i].timestamp
            &&& fills_costed(fills, config.commission_rate, config.tax_rate)
            &&& cash_after(config.initial_cash, fills, config.commission_rate, config.tax_rate) == Some(res.cash)
            &&& dec_sum(fills.map_values(|f: FillView| f.commission)) == Some(res.total_commission)
            &&& dec_sum(fills.map_values(|f: FillView| f.tax)) == Some(res.total_tax)
            &&& res.equity == (if res.equity_curve@.len() == 0 { config.initial_cash } else { res.equity_curve@.last().1 })
            &&& forall|j: int| 0 <= j < res.fills@.len() ==> exists|p: int|
                0 <= p < bars.len() && (#[trigger] res.fills@[j]).timestamp == timeline[p].timestamp
            &&& m1.prices == (if self.prices_bars() { priced(m0.prices, timeline) } else { m0.prices })
        }
    }

    /// A booked fill moves cash by its recorded amounts: a sell credits
    /// its notional (quantity × price), pays its commission and then pays
    /// its recorded tax out of cash; a buy pays its notional and its
    /// commission and records no tax.
    pub proof fn booked_fills_move_cash(self, o: OrderStep, close: Dec, quotes: Seq<Quote>, now: Timestamp)
        requires
            self.order_step_ok(o, close, quotes, now),
            o.booked is Some,
        ensures
            ({
                let f = o.booked.unwrap();
                match decimal_checked_mul(dec_of_int(f.quantity as int), f.price) {
                    None => false,
                    Some(notional) => {
                        &&& decimal_checked_mul(notional, self.settings().commission_rate) == Some(f.commission)
                        &&& if f.side == OrderSide::Sell {
                            &&& decimal_checked_mul(notional, self.settings().tax_rate) == Some(f.tax)
                            &&& match decimal_checked_add(o.cash_before, notional) {
                                None => false,
                                Some(credited) => match decimal_checked_sub(credited, f.commission) {
                                    None => false,
                                    Some(net) => decimal_checked_sub(net, f.tax) == Some(o.cash_after),
                                },
                            }
                        } else {
                            &&& f.tax == dec_of_int(0)
                            &&& match decimal_checked_sub(o.cash_before, notional) {
                                None => false,
                                Some(paid) => decimal_checked_sub(paid, f.commission) == Some(o.cash_after),
                            }
                        }
                    },
                }
            }),
    {
        reveal(BacktestEngine::order_step_ok);
    }

    /// Every intent of a decision, in order, as the run's next orders:
    /// each is built and numbered, then traded. `false` when an exact
    /// amount overflows.
    #[verifier::rlimit(100)]
    #[verifier::spinoff_prover]
    fn trade_all(
        &self,
        intents: &Vec<OrderIntent>,
        close: Dec,
        at: Timestamp,
        quotes: &Vec<Quote>,
        now: Timestamp,
        order_seq: &mut u128,
        cash: &mut Dec,
        portfolio: &mut Portfolio,
        fills: &mut Vec<FillRecord>,
        broker: &mut MockBroker,
    ) -> (r: (bool, Ghost<Seq<OrderStep>>))
        requires
            *old(order_seq) + intents@.len() <= u128::MAX,
            fills_costed(fill_views(old(fills)@), self.settings().commission_rate, self.settings().tax_rate),
            cash_after(self.settings().initial_cash, fill_views(old(fills)@), self.settings().commission_rate, self.settings().tax_rate)
                == Some(*old(cash)),
            old(fills)@.len() == 0 ==> old(portfolio).entries().len() == 0,
            old(fills)@.len() > 0 ==> reported_fill(old(broker)@.reports),
        ensures
            final(broker)@.prices == old(broker)@.prices,
            begins(old(broker)@.acks, final(broker)@.acks),
            begins(old(broker)@.reports, final(broker)@.reports),
            !r.0 ==> reported_fill(final(broker)@.reports),
            r.0 ==> {
                let orders = r.1@;
                &&& orders.len() == intents@.len()
                &&& self.orders_ok(orders, intent_views(intents@), *old(order_seq) as nat, close, quotes@, now, *old(portfolio), old(broker)@, *old(cash))
                &&& orders.len() == 0 ==> *final(portfolio) == *old(portfolio) && final(broker)@ == old(broker)@ && *final(cash) == *old(cash)
                &&& orders.len() > 0 ==> *final(portfolio) == orders.last().portfolio_after && final(broker)@ == orders.last().venue_after
                    && *final(cash) == orders.last().cash_after
                &&& fill_views(final(fills)@) == fill_views(old(fills)@) + booked_in(orders)
                &&& *final(order_seq) == *old(order_seq) + intents@.len()
                &&& fills_costed(fill_views(final(fills)@), self.settings().commission_rate, self.settings().tax_rate)
                &&& cash_after(self.settings().initial_cash, fill_views(final(fills)@), self.settings().commission_rate, self.settings().tax_rate)
                    == Some(*final(cash))
                &&& final(fills)@.len() == 0 ==> final(portfolio).entries().len() == 0
                &&& final(fills)@.len() > 0 ==> reported_fill(final(broker)@.reports)
                &&& old(fills)@.len() <= final(fills)@.len()
                &&& forall|j: int| 0 <= j < old(fills)@.len() ==> #[trigger] final(fills)@[j] == old(fills)@[j]
                &&& forall|j: int| old(fills)@.len() <= j < final(fills)@.len() ==> (#[trigger] final(fills)@[j]).timestamp == at
            },
    {
        proof {
            reveal(BacktestEngine::orders_ok);
        }
        let ghost start = broker@;
        let ghost p0 = *portfolio;
        let ghost c0 = *cash;
        let ghost f0 = fills@;
        let ghost s0 = *order_seq;
        let ghost mut orders: Seq<OrderStep> = Seq::empty();
        let commission_rate = self.config.commission_rate;
        let tax_rate = self.config.tax_rate;
        let mut k: usize = 0;
        while k < intents.len()
            invariant
                0 <= k <= intents@.len(),
                orders.len() == k,
                start == old(broker)@,
                p0 == *old(portfolio),
                c0 == *old(cash),
                f0 == old(fills)@,
                s0 == *old(order_seq),
                self.orders_ok(orders, intent_views(intents@), s0 as nat, close, quotes@, now, p0, start, c0),
                orders.len() > 0 ==> *portfolio == orders.last().portfolio_after && broker@ == orders.last().venue_after
                    && *cash == orders.last().cash_after,
                orders.len() == 0 ==> *portfolio == p0 && broker@ == start && *cash == c0,
                fill_views(fills@) == fill_views(f0) + booked_in(orders),
                *order_seq == s0 + k,
                s0 + intents@.len() <= u128::MAX,
                commission_rate == self.config.commission_rate,
                tax_rate == self.config.tax_rate,
                fills_costed(fill_views(fills@), commission_rate, tax_rate),
                cash_after(self.config.initial_cash, fill_views(fills@), commission_rate, tax_rate) == Some(*cash),
                broker@.prices == start.prices,
                begins(start.acks, broker@.acks),
                begins(start.reports, broker@.reports),
                fills@.len() == 0 ==> portfolio.entries().len() == 0,
                fills@.len() > 0 ==> reported_fill(broker@.reports),
                f0.len() <= fills@.len(),
                forall|j: int| 0 <= j < f0.len() ==> #[trigger] fills@[j] == f0[j],
                forall|j: int| f0.len() <= j < fills@.len() ==> (#[trigger] fills@[j]).timestamp == at,
            decreases intents.len() - k,
        {
            *order_seq = *order_seq + 1;
            let order = self.build_request(*order_seq, &intents[k]);
            let ghost fills_before = fills@;
            let ghost cash_before = *cash;
            let ghost reports_before = broker@.reports;
            let ghost acks_before = broker@.acks;
            let ghost portfolio_before = *portfolio;
            let ghost venue_before = broker@;
            let ok = self.trade(&order, close, at, quotes, now, cash, portfolio, fills, broker);
            if !ok {
                proof {
                    assert(broker@.prices == venue_before.prices);
                    assert(venue_before.prices == start.prices);
                }
                return (false, Ghost(orders));
            }
            proof {
                reveal(BacktestEngine::orders_ok);
                let o = OrderStep {
                    request: order,
                    portfolio_before,
                    portfolio_after: *portfolio,
                    venue_before,
                    venue_after: broker@,
                    cash_before,
                    cash_after: *cash,
                    booked: if fills@.len() > fills_before.len() {
                        Some(fill_views(fills@).last())
                    } else {
                        None
                    },
                };
                let grown = orders.push(o);
                assert(grown.drop_last() =~= orders);
                if fills@.len() > fills_before.len() {
                    let after = fill_views(fills@);
                    let before = fill_views(fills_before);
                    assert(after.drop_last() =~= before);
                    assert(after =~= before.push(after.last()));
                    assert(costed(after.last(), commission_rate, tax_rate));
                    assert(fill_views(fills@) =~= fill_views(f0) + booked_in(grown));
                    assert forall|j: int| 0 <= j < f0.len() implies #[trigger] fills@[j] == f0[j] by {
                        assert(fills@[j] == fills_before[j]);
                    }
                    assert forall|j: int| f0.len() <= j < fills@.len() implies (#[trigger] fills@[j]).timestamp == at by {
                        if j < fills_before.len() {
                            assert(fills@[j] == fills_before[j]);
                        }
                    }
                } else {
                    assert(booked_in(grown) =~= booked_in(orders));
                    if fills_before.len() > 0 {
                        lemma_reported_fill_grows(reports_before, broker@.reports);
                    }
                }
                assert(begins(start.acks, broker@.acks)) by {
                    assert forall|i: int| 0 <= i < start.acks.len() implies #[trigger] broker@.acks[i] == start.acks[i] by {
                        assert(acks_before[i] == start.acks[i]);
                    }
                }
                assert(begins(start.reports, broker@.reports)) by {
                    assert forall|i: int| 0 <= i < start.reports.len() implies #[trigger] broker@.reports[i] == start.reports[i] by {
                        assert(reports_before[i] == start.reports[i]);
                    }
                }
                assert(intent_views(intents@)[k as int] == intents@[k as int]@);
                assert(grown[k as int] == o);
                orders = grown;
            }
            k = k + 1;
        }
        (true, Ghost(orders))
    }

    /// Run over the bars (sorted by time) against `broker`, with `now` as
    /// the instant of risk checks and venue reports. At each bar the
    /// strategy is shown the history of the earlier bars only; every intent
    /// it decides becomes an order, which the risk layer may stop and the
    /// venue may fill; fills are booked with their costs, and the bar's
    /// equity is its cash plus its positions valued at its quotes
    /// (`run_result`, `steps_ok`). `None` only when an exact amount
    /// overflows (a checked `Decimal` operation gives no value), which
    /// needs a fill: a run in which the venue reports no fill always
    /// completes.
    #[verifier::rlimit(100)]
    #[verifier::spinoff_prover]
    pub fn run(&self, bars: Vec<Bar>, broker: &mut MockBroker, now: Timestamp) -> (r: Option<BacktestResult>)
        ensures
            self.run_result(bar_views(bars@), old(broker)@, now, r, final(broker)@),
    {
        proof {
            use_type_invariant(self);
        }
        let ghost start = broker@;
        let commission_rate = self.config.commission_rate;
        let tax_rate = self.config.tax_rate;
        proof {
            lemma_time_sorted_len(bar_views(bars@));
        }
        let ghost bars_len = bars@.len();
        let bar_count = bars.len();
        let mut feed = BacktestFeed::new(bars);
        let ghost timeline = feed.timeline();
        let mut history = HistoryWindow::new(self.config.history_capacity);
        let mut cash = self.config.initial_cash;
        let mut fills: Vec<FillRecord> = Vec::new();
        let mut equity_curve: Vec<(Timestamp, Dec)> = Vec::new();
        let mut live_quotes: SymbolMap<Quote> = SymbolMap::new();
        let mut order_seq: u128 = 0;
        let mut portfolio = Portfolio::new();
        let ghost mut steps: Seq<BarStep> = Seq::empty();
        while feed.has_next()
            invariant
                steps.len() == feed.position(),
                quote_map_of(live_quotes@, timeline.take(feed.position() as int)),
                self.steps_ok(steps, timeline, start, now),
                fill_views(fills@) == run_fills(steps),
                forall|i: int| 0 <= i < steps.len() ==> equity_of(#[trigger] steps[i]) == Some(equity_curve@[i].1),
                order_seq as nat == orders_sent(steps),
                steps.len() > 0 ==> portfolio == steps.last().portfolio_end && broker@ == steps.last().venue_end
                    && cash == steps.last().cash_end,
                steps.len() == 0 ==> portfolio@ == Map::<Seq<char>, PositionView>::empty() && broker@ == start
                    && cash == self.config.initial_cash,
                feed.timeline() == timeline,
                timeline.len() == bars_len,
                bars_len == bars@.len(),
                equity_curve@.len() == feed.position(),
                feed.position() <= timeline.len(),
                forall|i: int| 0 <= i < equity_curve@.len() ==> (#[trigger] equity_curve@[i]).0 == timeline[i].timestamp,
                fills_costed(fill_views(fills@), commission_rate, tax_rate),
                cash_after(self.config.initial_cash, fill_views(fills@), commission_rate, tax_rate) == Some(cash),
                commission_rate == self.config.commission_rate,
                tax_rate == self.config.tax_rate,
                start == old(broker)@,
                broker@.prices == (if self.bar_pricing { priced(start.prices, timeline.take(feed.position() as int)) } else { start.prices }),
                begins(start.acks, broker@.acks),
                begins(start.reports, broker@.reports),
                forall|j: int| 0 <= j < fills@.len() ==> exists|p: int|
                    0 <= p < feed.position() && (#[trigger] fills@[j]).timestamp == timeline[p].timestamp,
                bar_count == bars_len,
                order_seq <= feed.position() * usize::MAX,
                fills@.len() == 0 ==> portfolio.entries().len() == 0,
                fills@.len() > 0 ==> reported_fill(broker@.reports),
                history.cap() == self.config.history_capacity,
                history@ == shown_history(timeline.take(feed.position() as int), self.config.history_capacity as nat),
            decreases timeline.len() - feed.position(),
        {
            let ghost pos = feed.position();
            let bar = match feed.advance() {
                Some(b) => b,
                None => return None,
            };
            proof {
                assert(timeline.take(pos as int + 1).drop_last() =~= timeline.take(pos as int));
                assert(timeline.take(pos as int + 1).last() == timeline[pos as int]);
            }
            if self.bar_pricing {
                broker.set_price(&bar.symbol, bar.close);
            }
            let ghost prices_now = broker@.prices;
            let ghost venue_start = broker@;
            let ghost portfolio_start = portfolio;
            let ghost cash_start = cash;
            let ghost first = order_seq as nat;
            live_quotes.insert(bar.symbol.duplicate(), Quote { symbol: bar.symbol.duplicate(), last_price: bar.close, timestamp: bar.timestamp });
            let quotes = quote_list(&live_quotes);
            live_quotes.check_items();
            proof {
                let seen = timeline.take(pos as int + 1);
                assert(seen.drop_last() =~= timeline.take(pos as int));
                assert(seen.last() == timeline[pos as int]);
                assert(timeline.take(pos as int).push(timeline[pos as int]) =~= seen);
                assert forall|sym: Seq<char>| #[trigger] live_quotes@.contains_key(sym) == latest_bar(seen, sym) is Some by {}
                lemma_quote_list(live_quotes.items(), quotes@, seen);
            }
            let snapshot = bar_snapshot(&live_quotes, &portfolio, bar.timestamp, &history);
            proof {
                lemma_quote_list(live_quotes.items(), snapshot.quotes@, timeline.take(pos as int + 1));
                assert(forall|i: int| 0 <= i < snapshot.history@.len() ==> shown_history(
                    timeline.take(pos as int),
                    self.config.history_capacity as nat,
                ).contains_key(#[trigger] snapshot.history@[i].0@) && shown_history(
                    timeline.take(pos as int),
                    self.config.history_capacity as nat,
                )[snapshot.history@[i].0@] == snapshot.history@[i].1@);
            }
            let decision = self.strategy.decide(&snapshot);
            let n_intents = decision.intents.len();
            proof {
                assert(order_seq + decision.intents@.len() <= u128::MAX) by {
                    lemma_counter_room(pos as int, 0, bars@.len() as int);
                    assert(pos * usize::MAX + usize::MAX == (pos + 1) * usize::MAX) by (nonlinear_arith);
                    assert((pos + 1) * usize::MAX <= bars@.len() * usize::MAX) by (nonlinear_arith)
                        requires
                            pos + 1 <= bars@.len(),
                    ;
                    assert(bars@.len() * usize::MAX <= usize::MAX * usize::MAX) by (nonlinear_arith)
                        requires
                            bars@.len() <= usize::MAX,
                    ;
                    assert(usize::MAX * usize::MAX <= u128::MAX) by (nonlinear_arith);
                }
            }
            let ghost fills_before = fills@;
            let (ok, traded) = self.trade_all(
                &decision.intents,
                bar.close,
                bar.timestamp,
                &quotes,
                now,
                &mut order_seq,
                &mut cash,
                &mut portfolio,
                &mut fills,
                broker,
            );
            if !ok {
                return None;
            }
            let ghost orders = traded@;
            proof {
                assert(pos * usize::MAX + usize::MAX == (pos + 1) * usize::MAX) by (nonlinear_arith);
                assert(order_seq <= (pos + 1) * usize::MAX);
                assert forall|j: int| 0 <= j < fills@.len() implies exists|p: int|
                    0 <= p <= pos && (#[trigger] fills@[j]).timestamp == timeline[p].timestamp by {
                    if j < fills_before.len() {
                        assert(fills@[j] == fills_before[j]);
                    } else {
                        assert(fills@[j].timestamp == timeline[pos as int].timestamp);
                    }
                }
            }
            history.push(&bar.symbol, bar.close);
            let open_value = match gross_exposure(&portfolio, &quotes) {
                Some(v) => v,
                None => return None,
            };
            proof {
                crate::decimal::lemma_zero_is_int();
            }
            let equity = match cash.checked_add(&open_value) {
                Some(v) => v,
                None => return None,
            };
            let ghost curve_before = equity_curve@;
            equity_curve.push((bar.timestamp, equity));
            proof {
                let st = BarStep {
                    snapshot,
                    quotes: quotes@,
                    first_order: first,
                    orders,
                    portfolio_start,
                    portfolio_end: portfolio,
                    venue_start,
                    venue_end: broker@,
                    cash_start,
                    cash_end: cash,
                };
                let grown = steps.push(st);
                assert(grown.drop_last() =~= steps);
                assert(timeline.take(pos as int) == timeline.take(pos as int));
                assert(self.bar_step_ok(st, timeline.take(pos as int), timeline[pos as int], now)) by {
                    reveal(BacktestEngine::bar_step_ok);
                    let shown = shown_history(timeline.take(pos as int), self.settings().history_capacity as nat);
                    let h = st.snapshot.history@;
                    assert(forall|i: int, j: int| 0 <= i < j < h.len() ==> #[trigger] h[i].0@ != #[trigger] h[j].0@);
                    assert(forall|i: int| 0 <= i < h.len() ==> shown.contains_key(#[trigger] h[i].0@) && shown[h[i].0@] == h[i].1@);
                    assert(forall|k: Seq<char>| shown.contains_key(k) ==> exists|i: int| 0 <= i < h.len() && #[trigger] h[i].0@ == k);
                    assert(st.snapshot.as_of@ == rfc3339_text(timeline[pos as int].timestamp));
                    assert(position_views(st.snapshot.positions@) == st.portfolio_start.entries());
                    assert(decision@.intents == intent_views(decision.intents@));
                    assert(st.orders.len() == self.strategy_spec().decision_for(st.snapshot).intents.len());
                    assert(self.orders_ok(st.orders, self.strategy_spec().decision_for(st.snapshot).intents, st.first_order, timeline[pos as int].close, st.quotes, now, st.portfolio_start, st.venue_start, st.cash_start));
                }
                assert(run_fills(grown) == run_fills(steps) + booked_in(orders)) by {
                    assert(grown.last() == st);
                }
                assert forall|i: int| 0 <= i < grown.len() implies equity_of(#[trigger] grown[i]) == Some(equity_curve@[i].1) by {
                    if i < steps.len() {
                        assert(grown[i] == steps[i]);
                        assert(equity_curve@[i] == curve_before[i]);
                    }
                }
                steps = grown;
            }
        }
        proof {
            assert(feed.position() == timeline.len());
            assert(timeline.take(timeline.len() as int) =~= timeline);
        }
        let ghost fv = fill_views(fills@);
        let mut commissions: Vec<Dec> = Vec::new();
        let mut taxes: Vec<Dec> = Vec::new();
        let mut j: usize = 0;
        while j < fills.len()
            invariant
                0 <= j <= fills@.len(),
                fv == fill_views(fills@),
                commissions@ == fv.take(j as int).map_values(|f: FillView| f.commission),
                taxes@ == fv.take(j as int).map_values(|f: FillView| f.tax),
            decreases fills.len() - j,
        {
            commissions.push(fills[j].commission);
            taxes.push(fills[j].tax);
            j = j + 1;
            assert(commissions@ =~= fv.take(j as int).map_values(|f: FillView| f.commission));
            assert(taxes@ =~= fv.take(j as int).map_values(|f: FillView| f.tax));
        }
        assert(fv.take(j as int) =~= fv);
        if fills.len() == 0 {
            assert(commissions@ =~= Seq::<Dec>::empty());
            assert(taxes@ =~= Seq::<Dec>::empty());
        }
        let total_commission = match sum_all(&commissions) {
            Some(v) => v,
            None => return None,
        };
        let total_tax = match sum_all(&taxes) {
            Some(v) => v,
            None => return None,
        };
        let equity = if equity_curve.len() == 0 {
            self.config.initial_cash
        } else {
            equity_curve[equity_curve.len() - 1].1
        };
        Some(BacktestResult { cash, total_commission, total_tax, equity, equity_curve, fills, steps: Ghost(steps) })
    }
}

/// The snapshot a run shows its strategy at a bar: the quotes seen so
/// far, the positions held, the bar's instant, and the closes of the
/// history window (each symbol once, each with its window).
pub fn bar_snapshot(quotes: &SymbolMap<Quote>, portfolio: &Portfolio, at: Timestamp, history: &HistoryWindow) -> (r: MarketSnapshot)
    ensures
        r.quotes@.len() == quotes.items().len(),
        forall|i: int| 0 <= i < r.quotes@.len() ==> (#[trigger] r.quotes@[i]).symbol@ == quotes.items()[i].1.symbol@
            && r.quotes@[i].last_price == quotes.items()[i].1.last_price && r.quotes@[i].timestamp == quotes.items()[i].1.timestamp,
        position_views(r.positions@) == portfolio.entries(),
        r.as_of@ == rfc3339_text(at),
        forall|i: int, j: int| 0 <= i < j < r.history@.len() ==> #[trigger] r.history@[i].0@ != #[trigger] r.history@[j].0@,
        forall|i: int| 0 <= i < r.history@.len() ==> history@.contains_key(#[trigger] r.history@[i].0@)
            && history@[r.history@[i].0@] == r.history@[i].1@,
        forall|k: Seq<char>| history@.contains_key(k) ==> exists|i: int| 0 <= i < r.history@.len() && #[trigger] r.history@[i].0@ == k,
{
    let closes = history.snapshot();
    let r = MarketSnapshot { quotes: quote_list(quotes), positions: portfolio.positions(), as_of: rfc3339(at), history: closes };
    assert forall|k: Seq<char>| history@.contains_key(k) implies exists|i: int| 0 <= i < r.history@.len() && #[trigger] r.history@[i].0@ == k by {
        let i = choose|i: int| 0 <= i < r.history@.len() && #[trigger] r.history@[i].0@ == k;
        assert(r.history@[i].0@ == k);
    }
    r
}

/// The quotes held, in insertion order.
fn quote_list(quotes: &SymbolMap<Quote>) -> (r: Vec<Quote>)
    ensures
        r@.len() == quotes.items().len(),
        forall|i: int| 0 <= i < r@.len() ==> (#[trigger] r@[i]).symbol@ == quotes.items()[i].1.symbol@
            && r@[i].last_price == quotes.items()[i].1.last_price && r@[i].timestamp == quotes.items()[i].1.timestamp,
{
    let n = quotes.len();
    let mut out: Vec<Quote> = Vec::new();
    let mut i: usize = 0;
    while i < n
        invariant
            n == quotes.items().len(),
            0 <= i <= n,
            out@.len() == i,
            forall|j: int| 0 <= j < i ==> (#[trigger] out@[j]).symbol@ == quotes.items()[j].1.symbol@
                && out@[j].last_price == quotes.items()[j].1.last_price && out@[j].timestamp == quotes.items()[j].1.timestamp,
        decreases n - i,
    {
        let item = quotes.item(i);
        out.push(Quote { symbol: item.1.symbol.duplicate(), last_price: item.1.last_price, timestamp: item.1.timestamp });
        i = i + 1;
    }
    out
}

/// An order that never fills costs nothing: where a run's cash and cost
/// totals are those that its recorded fills determine, a run that records
/// no fill ends with its initial cash and with zero commission and tax.
pub proof fn unfilled_runs_cost_nothing(config: BacktestConfig, res: BacktestResult)
    requires
        res.fills@.len() == 0,
        cash_after(config.initial_cash, fill_views(res.fills@), config.commission_rate, config.tax_rate) == Some(res.cash),
        dec_sum(fill_views(res.fills@).map_values(|f: FillView| f.commission)) == Some(res.total_commission),
        dec_sum(fill_views(res.fills@).map_values(|f: FillView| f.tax)) == Some(res.total_tax),
    ensures
        res.cash == config.initial_cash,
        res.total_commission == dec_of_int(0),
        res.total_tax == dec_of_int(0),
{
    assert(fill_views(res.fills@).len() == 0);
    assert(fill_views(res.fills@).map_values(|f: FillView| f.commission).len() == 0);
    assert(fill_views(res.fills@).map_values(|f: FillView| f.tax).len() == 0);
}

/// Replay helper: the crossing rule of the in-memory venue.
pub fn bar_fills_limit(side: OrderSide, market: Dec, limit: Dec) -> (r: bool)
    ensures
        r == crosses(side, market, limit),
{
    limit_crosses(side, market, limit)
}

} // verus!
