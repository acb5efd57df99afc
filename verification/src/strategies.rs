//! The three most widely used starter algorithms as deterministic strategies.
//!
//! All operate on completed-bar closes from the snapshot's history (oldest
//! first); the current live quote is deliberately ignored so every signal is
//! reproducible from stored bars alone. Sells only fire when a position is
//! actually held.

use vstd::prelude::*;
use crate::decimal::{
    Dec, dec_le, dec_lt, dec_of_int, decimal_checked_add, decimal_checked_div, decimal_checked_sub,
    decimal_round_dp, decimal_text,
};
use crate::features::Features;
use crate::history::{sma, sma_spec};
use crate::strategy::{
    DecisionView, IntentView, MarketSnapshot, OrderIntent, StepView, Strategy, StrategyDecision,
    bool_string, bool_text, feature_key, feature_name, fold_features, fold_intents, held_for,
    history_for, insert_all, intent_views, lemma_fold_step, lemma_insert_all_small, market_intent,
    market_order, symbol_texts,
};
use crate::text::{int_text, u64_text, nat_digits};
use crate::types::{OrderSide, OrderType, Price, Quantity, Symbol};

verus! {

/// `min(held, quantity)`: never sell more than held.
pub open spec fn sell_size(held: i64, quantity: i64) -> i64 {
    if held <= quantity {
        held
    } else {
        quantity
    }
}

/// The intent of a buy/sell signal pair: buy when flat, sell when held.
pub open spec fn signal_intent(symbol: Seq<char>, buy: bool, sell: bool, held: i64, quantity: i64) -> Option<IntentView> {
    if buy && held == 0 {
        Some(market_intent(symbol, OrderSide::Buy, quantity))
    } else if sell && held > 0 {
        Some(market_intent(symbol, OrderSide::Sell, sell_size(held, quantity)))
    } else {
        None
    }
}

/// A signal sells at most the configured order size and at most what is
/// held: a sell is a market order for min(held, quantity) shares, and a
/// held position with a sell signal always gets one; a buy signal when flat
/// buys the configured quantity; otherwise nothing is ordered.
pub proof fn signals_sell_at_most_the_order_size(symbol: Seq<char>, buy: bool, sell: bool, held: i64, quantity: i64)
    ensures
        match signal_intent(symbol, buy, sell, held, quantity) {
            Some(x) => x.side == OrderSide::Sell ==> x.quantity <= quantity && x.quantity <= held && (x.quantity == held
                || x.quantity == quantity) && x.symbol == symbol && x.order_type == OrderType::Market,
            None => true,
        },
        sell && held > 0 ==> (match signal_intent(symbol, buy, sell, held, quantity) {
            Some(x) => x.side == OrderSide::Sell && x.quantity == (if held < quantity { held } else { quantity }),
            None => false,
        }),
        buy && held == 0 ==> (match signal_intent(symbol, buy, sell, held, quantity) {
            Some(x) => x.side == OrderSide::Buy && x.quantity == quantity && x.symbol == symbol,
            None => false,
        }),
        !(buy && held == 0) && !(sell && held > 0) ==> signal_intent(symbol, buy, sell, held, quantity) is None,
{
}

/// Pushes the intent of a signal pair.
pub fn push_signal(intents: &mut Vec<OrderIntent>, symbol: &Symbol, buy: bool, sell: bool, held: i64, quantity: i64)
    ensures
        intent_views(final(intents)@) == (match signal_intent(symbol@, buy, sell, held, quantity) {
            Some(x) => intent_views(old(intents)@).push(x),
            None => intent_views(old(intents)@),
        }),
{
    let ghost before = intents@;
    if buy && held == 0 {
        intents.push(market_order(symbol, OrderSide::Buy, quantity));
    } else if sell && held > 0 {
        let size = if held <= quantity {
            held
        } else {
            quantity
        };
        intents.push(market_order(symbol, OrderSide::Sell, size));
    }
    assert(intent_views(intents@) =~= (match signal_intent(symbol@, buy, sell, held, quantity) {
        Some(x) => intent_views(before).push(x),
        None => intent_views(before),
    }));
}

/// `"no signals"` without intents, else `"{name} signals"`.
pub open spec fn signals_rationale(name: Seq<char>, intents: Seq<IntentView>) -> Seq<char> {
    if intents.len() == 0 {
        "no signals"@
    } else {
        name + " signals"@
    }
}

pub fn signals_text(name: &str, intents: &Vec<OrderIntent>) -> (r: String)
    ensures
        r@ == signals_rationale(name@, intent_views(intents@)),
{
    proof {
        reveal_strlit("no signals");
        reveal_strlit(" signals");
    }
    if intents.len() == 0 {
        String::from_str("no signals")
    } else {
        let mut text = String::from_str(name);
        text.append(" signals");
        text
    }
}

/// Golden and dead cross of the fast over the slow average, between the
/// previous bar and the last one.
pub open spec fn cross_signal(closes: Seq<Dec>, fast: nat, slow: nat) -> Option<(bool, bool)> {
    if closes.len() < slow + 1 {
        None
    } else {
        let prefix = closes.drop_last();
        match (sma_spec(closes, fast), sma_spec(closes, slow), sma_spec(prefix, fast), sma_spec(prefix, slow)) {
            (Some(fast_now), Some(slow_now), Some(fast_prev), Some(slow_prev)) => Some(
                (
                    dec_le(fast_prev, slow_prev) && dec_lt(slow_now, fast_now),
                    dec_le(slow_prev, fast_prev) && dec_lt(fast_now, slow_now),
                ),
            ),
            _ => None,
        }
    }
}

/// SMA crossover (golden/dead cross): buy when the fast average crosses
/// above the slow one, sell the position when it crosses below.
pub struct SmaCrossStrategy {
    symbols: Vec<Symbol>,
    fast_period: usize,
    slow_period: usize,
    quantity: Quantity,
}

impl SmaCrossStrategy {
    pub fn new(symbols: Vec<Symbol>, fast_period: usize, slow_period: usize, quantity: Quantity) -> (r: SmaCrossStrategy)
        requires
            fast_period < slow_period,
        ensures
            r.symbol_list() == symbol_texts(symbols@),
            r.periods() == (fast_period, slow_period),
            r.order_quantity() == quantity,
    {
        SmaCrossStrategy { symbols, fast_period, slow_period, quantity }
    }

    pub closed spec fn symbol_list(self) -> Seq<Seq<char>> {
        symbol_texts(self.symbols@)
    }

    pub closed spec fn periods(self) -> (usize, usize) {
        (self.fast_period, self.slow_period)
    }

    pub closed spec fn order_quantity(self) -> i64 {
        self.quantity
    }

    /// What the strategy does for one symbol.
    pub closed spec fn step(&self, snapshot: MarketSnapshot, s: Seq<char>) -> StepView {
        match history_for(snapshot.history@, s) {
            None => StepView { intent: None, features: Seq::empty() },
            Some(closes) => {
                let bars = (feature_key(s, "bars"@), int_text(closes.len() as int));
                match cross_signal(closes, self.fast_period as nat, self.slow_period as nat) {
                    None => StepView { intent: None, features: seq![bars] },
                    Some((golden, dead)) => StepView {
                        intent: signal_intent(s, golden, dead, held_for(snapshot.positions@, s), self.quantity),
                        features: seq![
                            (feature_key(s, "golden"@), bool_text(golden)),
                            (feature_key(s, "dead"@), bool_text(dead)),
                            bars,
                        ],
                    },
                }
            },
        }
    }

    fn cross(closes: &Vec<Price>, fast: usize, slow: usize) -> (r: Option<(bool, bool)>)
        ensures
            r == cross_signal(closes@, fast as nat, slow as nat),
    {
        if closes.len() <= slow {
            return None;
        }
        let mut prefix = crate::decimal::copy_all(closes);
        prefix.pop();
        assert(prefix@ =~= closes@.drop_last());
        let fast_now = match sma(closes, fast) {
            Some(v) => v,
            None => return None,
        };
        let slow_now = match sma(closes, slow) {
            Some(v) => v,
            None => return None,
        };
        let fast_prev = match sma(&prefix, fast) {
            Some(v) => v,
            None => return None,
        };
        let slow_prev = match sma(&prefix, slow) {
            Some(v) => v,
            None => return None,
        };
        Some((fast_prev.le(&slow_prev) && fast_now.gt(&slow_now), fast_prev.ge(&slow_prev) && fast_now.lt(&slow_now)))
    }

    fn step_exec(&self, snapshot: &MarketSnapshot, symbol: &Symbol, intents: &mut Vec<OrderIntent>, features: &mut Features)
        ensures
            intent_views(final(intents)@) == (match self.step(*snapshot, symbol@).intent {
                Some(x) => intent_views(old(intents)@).push(x),
                None => intent_views(old(intents)@),
            }),
            final(features)@ == insert_all(old(features)@, self.step(*snapshot, symbol@).features),
    {
        let ghost s = symbol@;
        let ghost m = features@;
        let closes = match snapshot.closes_for(symbol) {
            Some(c) => c,
            None => {
                proof {
                    lemma_insert_all_small(m, (s, s), (s, s), (s, s));
                }
                return;
            },
        };
        let bars_value = u64_text(closes.len() as u64);
        let ghost bars = (feature_key(s, "bars"@), int_text(closes@.len() as int));
        match Self::cross(closes, self.fast_period, self.slow_period) {
            Some((golden, dead)) => {
                let held = snapshot.held_shares(symbol);
                push_signal(intents, symbol, golden, dead, held, self.quantity);
                features.insert(feature_name(symbol, "golden"), bool_string(golden));
                features.insert(feature_name(symbol, "dead"), bool_string(dead));
                features.insert(feature_name(symbol, "bars"), bars_value);
                proof {
                    reveal_strlit("golden");
                    reveal_strlit("dead");
                    reveal_strlit("bars");
                    lemma_insert_all_small(
                        m,
                        (feature_key(s, "golden"@), bool_text(golden)),
                        (feature_key(s, "dead"@), bool_text(dead)),
                        bars,
                    );
                }
            },
            None => {
                features.insert(feature_name(symbol, "bars"), bars_value);
                proof {
                    reveal_strlit("bars");
                    lemma_insert_all_small(m, bars, bars, bars);
                }
            },
        }
    }
}

impl Strategy for SmaCrossStrategy {
    open spec fn label(&self) -> Seq<char> {
        "sma-cross"@
    }

    open spec fn version_label(&self) -> Seq<char> {
        "1"@
    }

    open spec fn decision_for(&self, snapshot: MarketSnapshot) -> DecisionView {
        let symbols = self.symbol_list();
        let step = |s: Seq<char>| self.step(snapshot, s);
        let intents = fold_intents(symbols, step);
        DecisionView {
            name: "sma-cross"@,
            version: "1"@,
            intents,
            features: fold_features(symbols, step),
            rationale: signals_rationale("sma-cross"@, intents),
        }
    }

    fn name(&self) -> (r: &str) {
        "sma-cross"
    }

    fn version(&self) -> (r: &str) {
        "1"
    }

    fn decide(&self, snapshot: &MarketSnapshot) -> (r: StrategyDecision) {
        let ghost symbols = self.symbol_list();
        let ghost step = |s: Seq<char>| self.step(*snapshot, s);
        let mut intents: Vec<OrderIntent> = Vec::new();
        let mut features = Features::new();
        let mut i: usize = 0;
        while i < self.symbols.len()
            invariant
                0 <= i <= self.symbols@.len(),
                symbols == self.symbol_list(),
                symbols == symbol_texts(self.symbols@),
                step == (|s: Seq<char>| self.step(*snapshot, s)),
                intent_views(intents@) == fold_intents(symbols.take(i as int), step),
                features@ == fold_features(symbols.take(i as int), step),
            decreases self.symbols.len() - i,
        {
            proof {
                lemma_fold_step(symbols, step, i as int);
            }
            self.step_exec(snapshot, &self.symbols[i], &mut intents, &mut features);
            i = i + 1;
        }
        proof {
            assert(symbols.take(i as int) =~= symbols);
            reveal_strlit("sma-cross");
            reveal_strlit("1");
        }
        let rationale = signals_text("sma-cross", &intents);
        StrategyDecision {
            strategy_name: String::from_str("sma-cross"),
            strategy_version: String::from_str("1"),
            intents,
            features,
            rationale,
        }
    }
}

/// Summed gains and losses over consecutive changes, from zero, as the
/// exact arithmetic computes them; `None` on overflow.
pub open spec fn rsi_changes(tail: Seq<Dec>) -> Option<(Dec, Dec)>
    decreases tail.len(),
{
    if tail.len() < 2 {
        Some((dec_of_int(0), dec_of_int(0)))
    } else {
        match rsi_changes(tail.drop_last()) {
            None => None,
            Some((gains, losses)) => match decimal_checked_sub(tail.last(), tail[tail.len() - 2]) {
                None => None,
                Some(change) => if dec_lt(dec_of_int(0), change) {
                    match decimal_checked_add(gains, change) {
                        Some(g) => Some((g, losses)),
                        None => None,
                    }
                } else {
                    match decimal_checked_sub(losses, change) {
                        Some(l) => Some((gains, l)),
                        None => None,
                    }
                },
            },
        }
    }
}

/// Cutler's RSI over the last `period` changes (simple averages).
pub open spec fn rsi_spec(closes: Seq<Dec>, period: nat) -> Option<Dec> {
    if period == 0 || closes.len() < period + 1 {
        None
    } else {
        match rsi_changes(closes.skip(closes.len() - period - 1)) {
            None => None,
            Some((gains, losses)) => match (
                decimal_checked_div(gains, dec_of_int(period as int)),
                decimal_checked_div(losses, dec_of_int(period as int)),
            ) {
                (Some(avg_gain), Some(avg_loss)) => if avg_gain.mant() == 0 && avg_loss.mant() == 0 {
                    Some(dec_of_int(50))
                } else if avg_loss.mant() == 0 {
                    Some(dec_of_int(100))
                } else {
                    match decimal_checked_div(avg_gain, avg_loss) {
                        None => None,
                        Some(rs) => match decimal_checked_add(dec_of_int(1), rs) {
                            None => None,
                            Some(d) => match decimal_checked_div(dec_of_int(100), d) {
                                None => None,
                                Some(q) => decimal_checked_sub(dec_of_int(100), q),
                            },
                        },
                    }
                },
                _ => None,
            },
        }
    }
}

/// Cutler's RSI (simple-average based — exact decimal, no smoothing
/// state); `None` for a zero period, too few closes, or overflow.
pub fn rsi(closes: &Vec<Price>, period: usize) -> (r: Option<Dec>)
    ensures
        r == rsi_spec(closes@, period as nat),
{
    if period == 0 || closes.len() <= period {
        return None;
    }
    let start = closes.len() - period - 1;
    let ghost tail = closes@.skip(start as int);
    let mut gains = Dec::zero();
    let mut losses = Dec::zero();
    let mut k: usize = start + 1;
    assert(tail.take(1).len() < 2);
    while k < closes.len()
        invariant
            start + 1 <= k <= closes@.len(),
            period > 0,
            start == closes@.len() - period - 1,
            tail == closes@.skip(start as int),
            rsi_changes(tail.take(k - start)) == Some((gains, losses)),
        decreases closes.len() - k,
    {
        proof {
            let t = tail.take(k - start + 1);
            assert(t.drop_last() =~= tail.take(k - start));
            assert(t.last() == closes@[k as int]);
            assert(t[t.len() - 2] == closes@[k - 1]);
        }
        let change = match closes[k].checked_sub(&closes[k - 1]) {
            Some(c) => c,
            None => {
                proof {
                    lemma_rsi_none_extends(tail, k - start + 1);
                    assert(tail.take(tail.len() as int) =~= tail);
                }
                return None;
            },
        };
        if Dec::zero().lt(&change) {
            gains = match gains.checked_add(&change) {
                Some(g) => g,
                None => {
                    proof {
                        lemma_rsi_none_extends(tail, k - start + 1);
                    }
                    return None;
                },
            };
        } else {
            losses = match losses.checked_sub(&change) {
                Some(l) => l,
                None => {
                    proof {
                        lemma_rsi_none_extends(tail, k - start + 1);
                    }
                    return None;
                },
            };
        }
        k = k + 1;
    }
    proof {
        assert(tail.take(k - start) =~= tail);
    }
    let p = Dec::from_u64(period as u64);
    let avg_gain = match gains.checked_div(&p) {
        Some(v) => v,
        None => return None,
    };
    let avg_loss = match losses.checked_div(&p) {
        Some(v) => v,
        None => return None,
    };
    if avg_gain.is_zero() && avg_loss.is_zero() {
        return Some(Dec::from_i64(50));
    }
    if avg_loss.is_zero() {
        return Some(Dec::from_i64(100));
    }
    let rs = match avg_gain.checked_div(&avg_loss) {
        Some(v) => v,
        None => return None,
    };
    let d = match Dec::from_i64(1).checked_add(&rs) {
        Some(v) => v,
        None => return None,
    };
    let q = match Dec::from_i64(100).checked_div(&d) {
        Some(v) => v,
        None => return None,
    };
    Dec::from_i64(100).checked_sub(&q)
}

/// Once a prefix of changes overflows, every longer prefix does too.
pub proof fn lemma_rsi_none_extends(tail: Seq<Dec>, k: int)
    requires
        2 <= k <= tail.len(),
        rsi_changes(tail.take(k)) is None,
    ensures
        rsi_changes(tail) is None,
    decreases tail.len() - k,
{
    if k < tail.len() {
        let t = tail.take(k + 1);
        assert(t.drop_last() =~= tail.take(k));
        lemma_rsi_none_extends(tail, k + 1);
    } else {
        assert(tail.take(k) =~= tail);
    }
}

/// RSI mean reversion: buy oversold, sell overbought (when held).
pub struct RsiReversionStrategy {
    symbols: Vec<Symbol>,
    period: usize,
    oversold: Dec,
    overbought: Dec,
    quantity: Quantity,
}

impl RsiReversionStrategy {
    pub fn new(symbols: Vec<Symbol>, period: usize, oversold: Dec, overbought: Dec, quantity: Quantity) -> (r: RsiReversionStrategy)
        ensures
            r.symbol_list() == symbol_texts(symbols@),
            r.settings() == (period, oversold, overbought, quantity),
    {
        RsiReversionStrategy { symbols, period, oversold, overbought, quantity }
    }

    pub closed spec fn symbol_list(self) -> Seq<Seq<char>> {
        symbol_texts(self.symbols@)
    }

    pub closed spec fn settings(self) -> (usize, Dec, Dec, i64) {
        (self.period, self.oversold, self.overbought, self.quantity)
    }

    /// What the strategy does for one symbol.
    pub closed spec fn step(&self, snapshot: MarketSnapshot, s: Seq<char>) -> StepView {
        match history_for(snapshot.history@, s) {
            None => StepView { intent: None, features: Seq::empty() },
            Some(closes) => match rsi_spec(closes, self.period as nat) {
                None => StepView { intent: None, features: Seq::empty() },
                Some(value) => StepView {
                    intent: signal_intent(
                        s,
                        dec_lt(value, self.oversold),
                        dec_lt(self.overbought, value),
                        held_for(snapshot.positions@, s),
                        self.quantity,
                    ),
                    features: seq![(feature_key(s, "rsi"@), decimal_text(decimal_round_dp(value, 2)))],
                },
            },
        }
    }

    fn step_exec(&self, snapshot: &MarketSnapshot, symbol: &Symbol, intents: &mut Vec<OrderIntent>, features: &mut Features)
        ensures
            intent_views(final(intents)@) == (match self.step(*snapshot, symbol@).intent {
                Some(x) => intent_views(old(intents)@).push(x),
                None => intent_views(old(intents)@),
            }),
            final(features)@ == insert_all(old(features)@, self.step(*snapshot, symbol@).features),
    {
        let ghost s = symbol@;
        let ghost m = features@;
        proof {
            lemma_insert_all_small(m, (s, s), (s, s), (s, s));
        }
        let closes = match snapshot.closes_for(symbol) {
            Some(c) => c,
            None => return,
        };
        let value = match rsi(closes, self.period) {
            Some(v) => v,
            None => return,
        };
        let held = snapshot.held_shares(symbol);
        let rounded = value.round_dp(2);
        features.insert(feature_name(symbol, "rsi"), rounded.to_text());
        push_signal(intents, symbol, value.lt(&self.oversold), self.overbought.lt(&value), held, self.quantity);
        proof {
            reveal_strlit("rsi");
            let f = (feature_key(s, "rsi"@), decimal_text(decimal_round_dp(value, 2)));
            lemma_insert_all_small(m, f, f, f);
        }
    }
}

impl Strategy for RsiReversionStrategy {
    open spec fn label(&self) -> Seq<char> {
        "rsi-reversion"@
    }

    open spec fn version_label(&self) -> Seq<char> {
        "1"@
    }

    open spec fn decision_for(&self, snapshot: MarketSnapshot) -> DecisionView {
        let symbols = self.symbol_list();
        let step = |s: Seq<char>| self.step(snapshot, s);
        let intents = fold_intents(symbols, step);
        DecisionView {
            name: "rsi-reversion"@,
            version: "1"@,
            intents,
            features: fold_features(symbols, step),
            rationale: signals_rationale("rsi-reversion"@, intents),
        }
    }

    fn name(&self) -> (r: &str) {
        "rsi-reversion"
    }

    fn version(&self) -> (r: &str) {
        "1"
    }

    fn decide(&self, snapshot: &MarketSnapshot) -> (r: StrategyDecision) {
        let ghost symbols = self.symbol_list();
        let ghost step = |s: Seq<char>| self.step(*snapshot, s);
        let mut intents: Vec<OrderIntent> = Vec::new();
        let mut features = Features::new();
        let mut i: usize = 0;
        while i < self.symbols.len()
            invariant
                0 <= i <= self.symbols@.len(),
                symbols == self.symbol_list(),
                symbols == symbol_texts(self.symbols@),
                step == (|s: Seq<char>| self.step(*snapshot, s)),
                intent_views(intents@) == fold_intents(symbols.take(i as int), step),
                features@ == fold_features(symbols.take(i as int), step),
            decreases self.symbols.len() - i,
        {
            proof {
                lemma_fold_step(symbols, step, i as int);
            }
            self.step_exec(snapshot, &self.symbols[i], &mut intents, &mut features);
            i = i + 1;
        }
        proof {
            assert(symbols.take(i as int) =~= symbols);
            reveal_strlit("rsi-reversion");
            reveal_strlit("1");
        }
        let rationale = signals_text("rsi-reversion", &intents);
        StrategyDecision {
            strategy_name: String::from_str("rsi-reversion"),
            strategy_version: String::from_str("1"),
            intents,
            features,
            rationale,
        }
    }
}

/// The largest value, the last of equal largest ones (as `Iterator::max`
/// picks it).
pub open spec fn dec_max_last(s: Seq<Dec>) -> Dec
    decreases s.len(),
{
    if s.len() <= 1 {
        s[0]
    } else {
        let m = dec_max_last(s.drop_last());
        if dec_le(m, s.last()) {
            s.last()
        } else {
            m
        }
    }
}

/// The smallest value, the first of equal smallest ones (as `Iterator::min`
/// picks it).
pub open spec fn dec_min_first(s: Seq<Dec>) -> Dec
    decreases s.len(),
{
    if s.len() <= 1 {
        s[0]
    } else {
        let m = dec_min_first(s.drop_last());
        if dec_le(m, s.last()) {
            m
        } else {
            s.last()
        }
    }
}

/// Highest and lowest of `closes[from..to]` (non-empty).
fn range_extremes(closes: &Vec<Price>, from: usize, to: usize) -> (r: (Dec, Dec))
    requires
        from < to <= closes@.len(),
    ensures
        r.0 == dec_max_last(closes@.subrange(from as int, to as int)),
        r.1 == dec_min_first(closes@.subrange(from as int, to as int)),
{
    let mut high = closes[from];
    let mut low = closes[from];
    let mut k: usize = from + 1;
    while k < to
        invariant
            from < k <= to <= closes@.len(),
            high == dec_max_last(closes@.subrange(from as int, k as int)),
            low == dec_min_first(closes@.subrange(from as int, k as int)),
        decreases to - k,
    {
        proof {
            assert(closes@.subrange(from as int, k + 1).drop_last() =~= closes@.subrange(from as int, k as int));
        }
        let x = closes[k];
        if high.le(&x) {
            high = x;
        }
        if !low.le(&x) {
            low = x;
        }
        k = k + 1;
    }
    (high, low)
}

/// Donchian breakout (turtle entry): buy on close above the prior N-bar
/// high, exit on close below the prior N-bar low.
pub struct DonchianBreakoutStrategy {
    symbols: Vec<Symbol>,
    period: usize,
    quantity: Quantity,
}

impl DonchianBreakoutStrategy {
    #[verifier::type_invariant]
    spec fn positive(self) -> bool {
        self.period > 0
    }

    pub fn new(symbols: Vec<Symbol>, period: usize, quantity: Quantity) -> (r: DonchianBreakoutStrategy)
        requires
            period > 0,
        ensures
            r.symbol_list() == symbol_texts(symbols@),
            r.settings() == (period, quantity),
    {
        DonchianBreakoutStrategy { symbols, period, quantity }
    }

    pub closed spec fn symbol_list(self) -> Seq<Seq<char>> {
        symbol_texts(self.symbols@)
    }

    pub closed spec fn settings(self) -> (usize, i64) {
        (self.period, self.quantity)
    }

    /// What the strategy does for one symbol.
    pub closed spec fn step(&self, snapshot: MarketSnapshot, s: Seq<char>) -> StepView {
        match history_for(snapshot.history@, s) {
            None => StepView { intent: None, features: Seq::empty() },
            Some(closes) => if closes.len() < self.period + 1 {
                StepView { intent: None, features: Seq::empty() }
            } else {
                let last = closes.last();
                let prior = closes.subrange(closes.len() - 1 - self.period, closes.len() - 1);
                let high = dec_max_last(prior);
                let low = dec_min_first(prior);
                StepView {
                    intent: signal_intent(
                        s,
                        dec_lt(high, last),
                        dec_lt(last, low),
                        held_for(snapshot.positions@, s),
                        self.quantity,
                    ),
                    features: seq![
                        (feature_key(s, "prior_high"@), decimal_text(high)),
                        (feature_key(s, "prior_low"@), decimal_text(low)),
                    ],
                }
            },
        }
    }

    fn step_exec(&self, snapshot: &MarketSnapshot, symbol: &Symbol, intents: &mut Vec<OrderIntent>, features: &mut Features)
        ensures
            intent_views(final(intents)@) == (match self.step(*snapshot, symbol@).intent {
                Some(x) => intent_views(old(intents)@).push(x),
                None => intent_views(old(intents)@),
            }),
            final(features)@ == insert_all(old(features)@, self.step(*snapshot, symbol@).features),
    {
        proof {
            use_type_invariant(self);
        }
        let ghost s = symbol@;
        let ghost m = features@;
        proof {
            lemma_insert_all_small(m, (s, s), (s, s), (s, s));
        }
        let closes = match snapshot.closes_for(symbol) {
            Some(c) => c,
            None => return,
        };
        if closes.len() <= self.period {
            return;
        }
        let n = closes.len();
        let last = closes[n - 1];
        let (high, low) = range_extremes(closes, n - 1 - self.period, n - 1);
        features.insert(feature_name(symbol, "prior_high"), high.to_text());
        features.insert(feature_name(symbol, "prior_low"), low.to_text());
        let held = snapshot.held_shares(symbol);
        push_signal(intents, symbol, high.lt(&last), last.lt(&low), held, self.quantity);
        proof {
            reveal_strlit("prior_high");
            reveal_strlit("prior_low");
            let a = (feature_key(s, "prior_high"@), decimal_text(high));
            let b = (feature_key(s, "prior_low"@), decimal_text(low));
            lemma_insert_all_small(m, a, b, b);
        }
    }
}

impl Strategy for DonchianBreakoutStrategy {
    open spec fn label(&self) -> Seq<char> {
        "donchian-breakout"@
    }

    open spec fn version_label(&self) -> Seq<char> {
        "1"@
    }

    open spec fn decision_for(&self, snapshot: MarketSnapshot) -> DecisionView {
        let symbols = self.symbol_list();
        let step = |s: Seq<char>| self.step(snapshot, s);
        let intents = fold_intents(symbols, step);
        DecisionView {
            name: "donchian-breakout"@,
            version: "1"@,
            intents,
            features: fold_features(symbols, step),
            rationale: signals_rationale("donchian-breakout"@, intents),
        }
    }

    fn name(&self) -> (r: &str) {
        "donchian-breakout"
    }

    fn version(&self) -> (r: &str) {
        "1"
    }

    fn decide(&self, snapshot: &MarketSnapshot) -> (r: StrategyDecision) {
        let ghost symbols = self.symbol_list();
        let ghost step = |s: Seq<char>| self.step(*snapshot, s);
        let mut intents: Vec<OrderIntent> = Vec::new();
        let mut features = Features::new();
        let mut i: usize = 0;
        while i < self.symbols.len()
            invariant
                0 <= i <= self.symbols@.len(),
                symbols == self.symbol_list(),
                symbols == symbol_texts(self.symbols@),
                step == (|s: Seq<char>| self.step(*snapshot, s)),
                intent_views(intents@) == fold_intents(symbols.take(i as int), step),
                features@ == fold_features(symbols.take(i as int), step),
            decreases self.symbols.len() - i,
        {
            proof {
                lemma_fold_step(symbols, step, i as int);
            }
            self.step_exec(snapshot, &self.symbols[i], &mut intents, &mut features);
            i = i + 1;
        }
        proof {
            assert(symbols.take(i as int) =~= symbols);
            reveal_strlit("donchian-breakout");
            reveal_strlit("1");
        }
        let rationale = signals_text("donchian-breakout", &intents);
        StrategyDecision {
            strategy_name: String::from_str("donchian-breakout"),
            strategy_version: String::from_str("1"),
            intents,
            features,
            rationale,
        }
    }
}

} // verus!
