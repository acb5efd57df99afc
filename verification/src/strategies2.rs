//! Bollinger band reversion, 12-1 momentum rotation and MACD crossover.
//!
//! Operate on completed-bar closes only; sells fire only when a position is
//! held.

use vstd::prelude::*;
use crate::decimal::{
    Dec, dec_eq, dec_le, dec_lt, dec_of_int, dec_sum, decimal_checked_add, decimal_checked_div,
    decimal_checked_mul, decimal_checked_sub, decimal_round_dp, decimal_text, sum_all,
};
use crate::features::Features;
use crate::history::{sma, sma_spec};
use crate::strategies::{push_signal, sell_size, signal_intent};
use crate::strategy::{
    DecisionView, IntentView, MarketSnapshot, OrderIntent, StepView, Strategy, StrategyDecision,
    bool_string, bool_text, feature_key, feature_name, fold_features, fold_intents, held_for,
    history_for, insert_all, intent_views, lemma_fold_step, lemma_insert_all_small, market_intent,
    market_order, position_for, symbol_texts,
};
use crate::text::{int_text, i64_text, u64_text, text_lt, text_less, lemma_text_trichotomy};
use crate::types::{OrderSide, Price, Quantity, Symbol, symbol_code};

verus! {

/// Mid band and population variance of the last `period` closes, exact;
/// `None` with fewer closes, a zero period, or overflow.
pub open spec fn band_moments(closes: Seq<Dec>, period: nat) -> Option<(Dec, Dec)> {
    if closes.len() < period {
        None
    } else {
        match sma_spec(closes, period) {
            None => None,
            Some(mid) => match squares_sum(closes.skip(closes.len() - period), mid) {
                None => None,
                Some(total) => match decimal_checked_div(total, dec_of_int(period as int)) {
                    Some(variance) => Some((mid, variance)),
                    None => None,
                },
            },
        }
    }
}

/// Sum of `(close - mid)^2`, from zero in order; `None` on overflow.
pub open spec fn squares_sum(tail: Seq<Dec>, mid: Dec) -> Option<Dec>
    decreases tail.len(),
{
    if tail.len() == 0 {
        Some(dec_of_int(0))
    } else {
        match squares_sum(tail.drop_last(), mid) {
            None => None,
            Some(acc) => match decimal_checked_sub(tail.last(), mid) {
                None => None,
                Some(diff) => match decimal_checked_mul(diff, diff) {
                    None => None,
                    Some(sq) => decimal_checked_add(acc, sq),
                },
            },
        }
    }
}

/// Lower, mid and upper band from the mid and the standard deviation.
pub open spec fn bands_from(mid: Dec, sigma: Dec, multiplier: Dec) -> Option<(Dec, Dec, Dec)> {
    match decimal_checked_mul(sigma, multiplier) {
        None => None,
        Some(band) => match (decimal_checked_sub(mid, band), decimal_checked_add(mid, band)) {
            (Some(lower), Some(upper)) => Some((lower, mid, upper)),
            _ => None,
        },
    }
}

/// The standard deviation supplied for a symbol (the first entry naming it).
pub open spec fn sigma_for(sigmas: Seq<(Symbol, Option<Dec>)>, symbol: Seq<char>) -> Option<Dec>
    decreases sigmas.len(),
{
    if sigmas.len() == 0 {
        None
    } else if sigmas[0].0@ == symbol {
        sigmas[0].1
    } else {
        sigma_for(sigmas.skip(1), symbol)
    }
}

fn find_sigma(sigmas: &Vec<(Symbol, Option<Dec>)>, symbol: &Symbol) -> (r: Option<Dec>)
    ensures
        r == sigma_for(sigmas@, symbol@),
{
    let mut i: usize = 0;
    assert(sigmas@.skip(0) =~= sigmas@);
    while i < sigmas.len()
        invariant
            0 <= i <= sigmas@.len(),
            sigma_for(sigmas@, symbol@) == sigma_for(sigmas@.skip(i as int), symbol@),
        decreases sigmas.len() - i,
    {
        proof {
            assert(sigmas@.skip(i as int)[0] == sigmas@[i as int]);
            assert(sigmas@.skip(i as int).skip(1) =~= sigmas@.skip(i + 1));
        }
        if sigmas[i].0.same(symbol) {
            return sigmas[i].1;
        }
        i = i + 1;
    }
    None
}

/// Bollinger band mean reversion: SMA ± k·σ bands; enter long on a close
/// below the lower band, exit on a close above the upper band.
///
/// The standard deviation is the square root of the exact variance
/// ([`BollingerReversionStrategy::moments`]); the root itself is taken by
/// the caller, which hands it in per symbol.
pub struct BollingerReversionStrategy {
    symbols: Vec<Symbol>,
    period: usize,
    sigma_multiplier: Dec,
    quantity: Quantity,
}

impl BollingerReversionStrategy {
    pub fn new(symbols: Vec<Symbol>, period: usize, sigma_multiplier: Dec, quantity: Quantity) -> (r: BollingerReversionStrategy)
        ensures
            r.symbol_list() == symbol_texts(symbols@),
            r.settings() == (period, sigma_multiplier, quantity),
    {
        BollingerReversionStrategy { symbols, period, sigma_multiplier, quantity }
    }

    pub closed spec fn symbol_list(self) -> Seq<Seq<char>> {
        symbol_texts(self.symbols@)
    }

    pub closed spec fn settings(self) -> (usize, Dec, i64) {
        (self.period, self.sigma_multiplier, self.quantity)
    }

    pub fn symbols(&self) -> (r: &Vec<Symbol>)
        ensures
            symbol_texts(r@) == self.symbol_list(),
    {
        &self.symbols
    }

    pub fn name(&self) -> (r: &str)
        ensures
            r@ == "bollinger-reversion"@,
    {
        proof {
            reveal_strlit("bollinger-reversion");
        }
        "bollinger-reversion"
    }

    pub fn version(&self) -> (r: &str)
        ensures
            r@ == "1"@,
    {
        proof {
            reveal_strlit("1");
        }
        "1"
    }

    /// Mid band and variance of the closes over the strategy's period.
    pub fn moments(&self, closes: &Vec<Price>) -> (r: Option<(Dec, Dec)>)
        ensures
            r == band_moments(closes@, self.settings().0 as nat),
    {
        if closes.len() < self.period {
            return None;
        }
        let mid = match sma(closes, self.period) {
            Some(m) => m,
            None => return None,
        };
        let start = closes.len() - self.period;
        let ghost tail = closes@.skip(start as int);
        let mut total = Dec::zero();
        let mut k: usize = start;
        assert(tail.take(0) =~= Seq::<Dec>::empty());
        while k < closes.len()
            invariant
                start <= k <= closes@.len(),
                start == closes@.len() - self.period,
                closes@.len() >= self.period,
                sma_spec(closes@, self.period as nat) == Some(mid),
                tail == closes@.skip(start as int),
                squares_sum(tail.take(k - start), mid) == Some(total),
            decreases closes.len() - k,
        {
            proof {
                assert(tail.take(k - start + 1).drop_last() =~= tail.take(k - start));
                assert(tail.take(k - start + 1).last() == closes@[k as int]);
            }
            let diff = match closes[k].checked_sub(&mid) {
                Some(d) => d,
                None => {
                    proof {
                        lemma_squares_none_extends(tail, mid, k - start + 1);
                    }
                    return None;
                },
            };
            let sq = match diff.checked_mul(&diff) {
                Some(v) => v,
                None => {
                    proof {
                        lemma_squares_none_extends(tail, mid, k - start + 1);
                    }
                    return None;
                },
            };
            total = match total.checked_add(&sq) {
                Some(v) => v,
                None => {
                    proof {
                        lemma_squares_none_extends(tail, mid, k - start + 1);
                    }
                    return None;
                },
            };
            k = k + 1;
        }
        proof {
            assert(tail.take(k - start) =~= tail);
        }
        match total.checked_div(&Dec::from_u64(self.period as u64)) {
            Some(variance) => Some((mid, variance)),
            None => None,
        }
    }

    /// What the strategy does for one symbol, given the standard deviations.
    pub closed spec fn step(&self, snapshot: MarketSnapshot, sigmas: Seq<(Symbol, Option<Dec>)>, s: Seq<char>) -> StepView {
        match history_for(snapshot.history@, s) {
            None => StepView { intent: None, features: Seq::empty() },
            Some(closes) => if closes.len() == 0 {
                StepView { intent: None, features: Seq::empty() }
            } else {
                match band_moments(closes, self.period as nat) {
                    None => StepView { intent: None, features: Seq::empty() },
                    Some((mid, _)) => match sigma_for(sigmas, s) {
                        None => StepView { intent: None, features: Seq::empty() },
                        Some(sigma) => match bands_from(mid, sigma, self.sigma_multiplier) {
                            None => StepView { intent: None, features: Seq::empty() },
                            Some((lower, m, upper)) => StepView {
                                intent: signal_intent(
                                    s,
                                    dec_lt(closes.last(), lower),
                                    dec_lt(upper, closes.last()),
                                    held_for(snapshot.positions@, s),
                                    self.quantity,
                                ),
                                features: seq![
                                    (feature_key(s, "lower"@), decimal_text(decimal_round_dp(lower, 2))),
                                    (feature_key(s, "mid"@), decimal_text(decimal_round_dp(m, 2))),
                                    (feature_key(s, "upper"@), decimal_text(decimal_round_dp(upper, 2))),
                                ],
                            },
                        },
                    },
                }
            },
        }
    }

    /// The decision on a snapshot, given the standard deviations.
    pub open spec fn decision_with(&self, snapshot: MarketSnapshot, sigmas: Seq<(Symbol, Option<Dec>)>) -> DecisionView {
        let symbols = self.symbol_list();
        let step = |s: Seq<char>| self.step(snapshot, sigmas, s);
        let intents = fold_intents(symbols, step);
        DecisionView {
            name: "bollinger-reversion"@,
            version: "1"@,
            intents,
            features: fold_features(symbols, step),
            rationale: if intents.len() == 0 {
                "no band signals"@
            } else {
                "bollinger band reversion"@
            },
        }
    }

    fn step_exec(
        &self,
        snapshot: &MarketSnapshot,
        sigmas: &Vec<(Symbol, Option<Dec>)>,
        symbol: &Symbol,
        intents: &mut Vec<OrderIntent>,
        features: &mut Features,
    )
        ensures
            intent_views(final(intents)@) == (match self.step(*snapshot, sigmas@, symbol@).intent {
                Some(x) => intent_views(old(intents)@).push(x),
                None => intent_views(old(intents)@),
            }),
            final(features)@ == insert_all(old(features)@, self.step(*snapshot, sigmas@, symbol@).features),
    {
        let ghost s = symbol@;
        let ghost m = features@;
        proof {
            lemma_insert_all_small(m, (s, s), (s, s), (s, s));
        }
        let closes = match snapshot.closes_for(symbol) {
            Some(c) => c,
            None => return,
        };
        if closes.len() == 0 {
            return;
        }
        let last = closes[closes.len() - 1];
        let mid = match self.moments(closes) {
            Some((mid, _)) => mid,
            None => return,
        };
        let sigma = match find_sigma(sigmas, symbol) {
            Some(v) => v,
            None => return,
        };
        let band = match sigma.checked_mul(&self.sigma_multiplier) {
            Some(b) => b,
            None => return,
        };
        let lower = match mid.checked_sub(&band) {
            Some(v) => v,
            None => return,
        };
        let upper = match mid.checked_add(&band) {
            Some(v) => v,
            None => return,
        };
        features.insert(feature_name(symbol, "lower"), lower.round_dp(2).to_text());
        features.insert(feature_name(symbol, "mid"), mid.round_dp(2).to_text());
        features.insert(feature_name(symbol, "upper"), upper.round_dp(2).to_text());
        let held = snapshot.held_shares(symbol);
        push_signal(intents, symbol, last.lt(&lower), upper.lt(&last), held, self.quantity);
        proof {
            reveal_strlit("lower");
            reveal_strlit("mid");
            reveal_strlit("upper");
            lemma_insert_all_small(
                m,
                (feature_key(s, "lower"@), decimal_text(decimal_round_dp(lower, 2))),
                (feature_key(s, "mid"@), decimal_text(decimal_round_dp(mid, 2))),
                (feature_key(s, "upper"@), decimal_text(decimal_round_dp(upper, 2))),
            );
        }
    }

    /// Decide on a snapshot, with the standard deviation of each symbol's
    /// window supplied in `sigmas` (a symbol without one gives no signal).
    pub fn decide_with(&self, snapshot: &MarketSnapshot, sigmas: &Vec<(Symbol, Option<Dec>)>) -> (r: StrategyDecision)
        ensures
            r@ == self.decision_with(*snapshot, sigmas@),
    {
        let ghost symbols = self.symbol_list();
        let ghost step = |s: Seq<char>| self.step(*snapshot, sigmas@, s);
        let mut intents: Vec<OrderIntent> = Vec::new();
        let mut features = Features::new();
        let mut i: usize = 0;
        while i < self.symbols.len()
            invariant
                0 <= i <= self.symbols@.len(),
                symbols == self.symbol_list(),
                symbols == symbol_texts(self.symbols@),
                step == (|s: Seq<char>| self.step(*snapshot, sigmas@, s)),
                intent_views(intents@) == fold_intents(symbols.take(i as int), step),
                features@ == fold_features(symbols.take(i as int), step),
            decreases self.symbols.len() - i,
        {
            proof {
                lemma_fold_step(symbols, step, i as int);
            }
            self.step_exec(snapshot, sigmas, &self.symbols[i], &mut intents, &mut features);
            i = i + 1;
        }
        proof {
            assert(symbols.take(i as int) =~= symbols);
            reveal_strlit("bollinger-reversion");
            reveal_strlit("1");
            reveal_strlit("no band signals");
            reveal_strlit("bollinger band reversion");
        }
        let rationale = if intents.len() == 0 {
            String::from_str("no band signals")
        } else {
            String::from_str("bollinger band reversion")
        };
        StrategyDecision {
            strategy_name: String::from_str("bollinger-reversion"),
            strategy_version: String::from_str("1"),
            intents,
            features,
            rationale,
        }
    }
}

/// Two sigma lists with the same symbol texts and the same values, entry
/// by entry, answer every symbol alike.
proof fn lemma_sigma_for_views(a: Seq<(Symbol, Option<Dec>)>, b: Seq<(Symbol, Option<Dec>)>, s: Seq<char>)
    requires
        a.len() == b.len(),
        forall|i: int| 0 <= i < a.len() ==> (#[trigger] a[i]).0@ == b[i].0@ && a[i].1 == b[i].1,
    ensures
        sigma_for(a, s) == sigma_for(b, s),
    decreases a.len(),
{
    if a.len() > 0 {
        assert forall|i: int| 0 <= i < a.skip(1).len() implies (#[trigger] a.skip(1)[i]).0@ == b.skip(1)[i].0@
            && a.skip(1)[i].1 == b.skip(1)[i].1 by {
            assert(a.skip(1)[i] == a[i + 1]);
            assert(b.skip(1)[i] == b[i + 1]);
        }
        assert(a[0].0@ == b[0].0@ && a[0].1 == b[0].1);
        lemma_sigma_for_views(a.skip(1), b.skip(1), s);
    }
}

impl BollingerReversionStrategy {
    /// The decision sees the sigma list only through what it answers for
    /// each symbol.
    proof fn lemma_decision_views(&self, snapshot: MarketSnapshot, a: Seq<(Symbol, Option<Dec>)>, b: Seq<(Symbol, Option<Dec>)>)
        requires
            a.len() == b.len(),
            forall|i: int| 0 <= i < a.len() ==> (#[trigger] a[i]).0@ == b[i].0@ && a[i].1 == b[i].1,
        ensures
            self.decision_with(snapshot, a) == self.decision_with(snapshot, b),
    {
        let fa = |s: Seq<char>| self.step(snapshot, a, s);
        let fb = |s: Seq<char>| self.step(snapshot, b, s);
        assert forall|s: Seq<char>| #[trigger] fa(s) == fb(s) by {
            lemma_sigma_for_views(a, b, s);
        }
        assert(fa =~= fb);
    }
}

/// The root the table holds for a variance: that of the first entry whose
/// variance has the same value.
pub open spec fn root_of(roots: Seq<(Dec, Dec)>, variance: Dec) -> Option<Dec>
    decreases roots.len(),
{
    if roots.len() == 0 {
        None
    } else if dec_eq(roots[0].0, variance) {
        Some(roots[0].1)
    } else {
        root_of(roots.skip(1), variance)
    }
}

fn find_root(roots: &Vec<(Dec, Dec)>, variance: &Dec) -> (r: Option<Dec>)
    ensures
        r == root_of(roots@, *variance),
{
    let mut i: usize = 0;
    assert(roots@.skip(0) =~= roots@);
    while i < roots.len()
        invariant
            0 <= i <= roots@.len(),
            root_of(roots@, *variance) == root_of(roots@.skip(i as int), *variance),
        decreases roots.len() - i,
    {
        proof {
            assert(roots@.skip(i as int)[0] == roots@[i as int]);
            assert(roots@.skip(i as int).skip(1) =~= roots@.skip(i + 1));
        }
        if roots[i].0.same_value(variance) {
            return Some(roots[i].1);
        }
        i = i + 1;
    }
    None
}

/// Bollinger band reversion with each window's standard deviation looked
/// up in a table of square roots (variance, root) computed beforehand; a
/// window whose variance the table lacks gives no signal. This is the
/// form a backtest runs, where every window is known in advance.
pub struct TabledBollinger {
    strategy: BollingerReversionStrategy,
    roots: Vec<(Dec, Dec)>,
}

impl TabledBollinger {
    pub fn new(strategy: BollingerReversionStrategy, roots: Vec<(Dec, Dec)>) -> (r: TabledBollinger)
        ensures
            r.inner() == strategy,
            r.table() == roots@,
    {
        TabledBollinger { strategy, roots }
    }

    pub closed spec fn inner(self) -> BollingerReversionStrategy {
        self.strategy
    }

    pub closed spec fn table(self) -> Seq<(Dec, Dec)> {
        self.roots@
    }

    /// The standard deviation the table gives the window of `s`.
    pub closed spec fn window_sigma(self, snapshot: MarketSnapshot, s: Seq<char>) -> Option<Dec> {
        match history_for(snapshot.history@, s) {
            Some(closes) => match band_moments(closes, self.strategy.settings().0 as nat) {
                Some((_, variance)) => root_of(self.roots@, variance),
                None => None,
            },
            None => None,
        }
    }

    /// Each of the strategy's symbols with the table's standard deviation
    /// for its window.
    pub closed spec fn sigma_table(self, snapshot: MarketSnapshot) -> Seq<(Symbol, Option<Dec>)> {
        Seq::new(
            self.strategy.symbols@.len(),
            |i: int| (self.strategy.symbols@[i], self.window_sigma(snapshot, self.strategy.symbols@[i]@)),
        )
    }

    fn sigmas(&self, snapshot: &MarketSnapshot) -> (r: Vec<(Symbol, Option<Dec>)>)
        ensures
            r@.len() == self.sigma_table(*snapshot).len(),
            forall|i: int| 0 <= i < r@.len() ==> (#[trigger] r@[i]).0@ == self.sigma_table(*snapshot)[i].0@
                && r@[i].1 == self.sigma_table(*snapshot)[i].1,
    {
        let ghost table = self.sigma_table(*snapshot);
        let symbols = &self.strategy.symbols;
        let mut out: Vec<(Symbol, Option<Dec>)> = Vec::new();
        let mut i: usize = 0;
        while i < symbols.len()
            invariant
                symbols == &self.strategy.symbols,
                table == self.sigma_table(*snapshot),
                0 <= i <= symbols@.len(),
                out@.len() == i,
                forall|k: int| 0 <= k < i ==> (#[trigger] out@[k]).0@ == table[k].0@ && out@[k].1 == table[k].1,
            decreases symbols.len() - i,
        {
            let symbol = &symbols[i];
            let sigma = match snapshot.closes_for(symbol) {
                Some(closes) => match self.strategy.moments(closes) {
                    Some((_, variance)) => find_root(&self.roots, &variance),
                    None => None,
                },
                None => None,
            };
            out.push((symbol.duplicate(), sigma));
            i = i + 1;
        }
        out
    }
}

impl Strategy for TabledBollinger {
    open spec fn label(&self) -> Seq<char> {
        "bollinger-reversion"@
    }

    open spec fn version_label(&self) -> Seq<char> {
        "1"@
    }

    open spec fn decision_for(&self, snapshot: MarketSnapshot) -> DecisionView {
        self.inner().decision_with(snapshot, self.sigma_table(snapshot))
    }

    fn name(&self) -> (r: &str) {
        self.strategy.name()
    }

    fn version(&self) -> (r: &str) {
        self.strategy.version()
    }

    fn decide(&self, snapshot: &MarketSnapshot) -> (r: StrategyDecision) {
        let sigmas = self.sigmas(snapshot);
        proof {
            self.strategy.lemma_decision_views(*snapshot, sigmas@, self.sigma_table(*snapshot));
        }
        self.strategy.decide_with(snapshot, &sigmas)
    }
}

/// Once a prefix's squared deviations overflow, every longer prefix does.
pub proof fn lemma_squares_none_extends(tail: Seq<Dec>, mid: Dec, k: int)
    requires
        0 <= k <= tail.len(),
        squares_sum(tail.take(k), mid) is None,
    ensures
        squares_sum(tail, mid) is None,
    decreases tail.len() - k,
{
    if k < tail.len() {
        assert(tail.take(k + 1).drop_last() =~= tail.take(k));
        lemma_squares_none_extends(tail, mid, k + 1);
    } else {
        assert(tail.take(k) =~= tail);
    }
}

/// One smoothing step: `alpha * close + (1 - alpha) * prev`.
pub open spec fn ema_next(alpha: Dec, prev: Dec, close: Dec) -> Option<Dec> {
    match (decimal_checked_mul(alpha, close), decimal_checked_sub(dec_of_int(1), alpha)) {
        (Some(a), Some(rest)) => match decimal_checked_mul(rest, prev) {
            Some(b) => decimal_checked_add(a, b),
            None => None,
        },
        _ => None,
    }
}

/// The series started at `seed` and smoothed over `rest`.
pub open spec fn ema_run(seed: Dec, alpha: Dec, rest: Seq<Dec>) -> Option<Seq<Dec>>
    decreases rest.len(),
{
    if rest.len() == 0 {
        Some(seq![seed])
    } else {
        match ema_run(seed, alpha, rest.drop_last()) {
            None => None,
            Some(series) => match ema_next(alpha, series.last(), rest.last()) {
                Some(v) => Some(series.push(v)),
                None => None,
            },
        }
    }
}

/// Exponential moving average series seeded with the simple average of the
/// first `period` closes, `alpha = 2 / (period + 1)`; empty with fewer
/// closes, `None` on a zero period or overflow.
pub open spec fn ema_spec(closes: Seq<Dec>, period: nat) -> Option<Seq<Dec>> {
    if closes.len() < period {
        Some(Seq::empty())
    } else {
        match decimal_checked_div(dec_of_int(2), dec_of_int(period + 1 as int)) {
            None => None,
            Some(alpha) => match dec_sum(closes.take(period as int)) {
                None => None,
                Some(total) => match decimal_checked_div(total, dec_of_int(period as int)) {
                    None => None,
                    Some(seed) => ema_run(seed, alpha, closes.skip(period as int)),
                },
            },
        }
    }
}

/// The first `n` MACD values: fast EMA (shifted by `offset`) minus slow EMA.
pub open spec fn macd_prefix(fast: Seq<Dec>, slow: Seq<Dec>, offset: int, n: nat) -> Option<Seq<Dec>>
    decreases n,
{
    if n == 0 {
        Some(Seq::empty())
    } else {
        match macd_prefix(fast, slow, offset, (n - 1) as nat) {
            None => None,
            Some(line) => match decimal_checked_sub(fast[n - 1 + offset], slow[n - 1]) {
                Some(v) => Some(line.push(v)),
                None => None,
            },
        }
    }
}

/// Bullish and bearish crossings of the MACD line over its signal line on
/// the last bar.
pub open spec fn macd_signal(closes: Seq<Dec>, fast: nat, slow: nat, signal: nat) -> Option<(bool, bool)> {
    if closes.len() < slow + signal {
        None
    } else {
        match (ema_spec(closes, fast), ema_spec(closes, slow)) {
            (Some(f), Some(sl)) => if f.len() < sl.len() {
                None
            } else {
                match macd_prefix(f, sl, f.len() - sl.len(), sl.len()) {
                    None => None,
                    Some(macd) => if macd.len() < signal + 1 {
                        None
                    } else {
                        match ema_spec(macd, signal) {
                            None => None,
                            Some(sig) => if sig.len() < 2 || macd.len() < 2 {
                                None
                            } else {
                                let macd_now = macd.last();
                                let signal_now = sig.last();
                                let macd_prev = macd[macd.len() - 2];
                                let signal_prev = sig[sig.len() - 2];
                                Some(
                                    (
                                        dec_le(macd_prev, signal_prev) && dec_lt(signal_now, macd_now),
                                        dec_le(signal_prev, macd_prev) && dec_lt(macd_now, signal_now),
                                    ),
                                )
                            },
                        }
                    },
                }
            },
            _ => None,
        }
    }
}

/// MACD crossover: MACD(fast, slow, signal); buy on a signal-line cross-up,
/// sell on a cross-down.
pub struct MacdCrossStrategy {
    symbols: Vec<Symbol>,
    fast: usize,
    slow: usize,
    signal: usize,
    quantity: Quantity,
}

impl MacdCrossStrategy {
    /// `fast` may not exceed `slow`: the tails of the two averages are
    /// aligned by the difference of their lengths, which runs below zero
    /// otherwise.
    pub fn new(symbols: Vec<Symbol>, fast: usize, slow: usize, signal: usize, quantity: Quantity) -> (r: MacdCrossStrategy)
        requires
            fast <= slow,
        ensures
            r.symbol_list() == symbol_texts(symbols@),
            r.settings() == (fast, slow, signal, quantity),
    {
        MacdCrossStrategy { symbols, fast, slow, signal, quantity }
    }

    pub closed spec fn symbol_list(self) -> Seq<Seq<char>> {
        symbol_texts(self.symbols@)
    }

    pub closed spec fn settings(self) -> (usize, usize, usize, i64) {
        (self.fast, self.slow, self.signal, self.quantity)
    }

    /// The EMA series of the closes over `period`.
    pub fn ema_series(closes: &Vec<Price>, period: usize) -> (r: Option<Vec<Dec>>)
        ensures
            match r {
                Some(v) => ema_spec(closes@, period as nat) == Some(v@),
                None => ema_spec(closes@, period as nat) is None,
            },
    {
        if closes.len() < period {
            return Some(Vec::new());
        }
        let alpha = match Dec::from_i64(2).checked_div(&Dec::from_int(period as i128 + 1)) {
            Some(a) => a,
            None => return None,
        };
        let mut head: Vec<Dec> = Vec::new();
        let mut k: usize = 0;
        while k < period
            invariant
                0 <= k <= period <= closes@.len(),
                head@ == closes@.take(k as int),
            decreases period - k,
        {
            head.push(closes[k]);
            k = k + 1;
            assert(head@ =~= closes@.take(k as int));
        }
        let total = match sum_all(&head) {
            Some(t) => t,
            None => return None,
        };
        let seed = match total.checked_div(&Dec::from_u64(period as u64)) {
            Some(v) => v,
            None => return None,
        };
        let ghost rest = closes@.skip(period as int);
        let mut series: Vec<Dec> = Vec::new();
        series.push(seed);
        let mut j: usize = period;
        assert(rest.take(0) =~= Seq::<Dec>::empty());
        assert(ema_spec(closes@, period as nat) == ema_run(seed, alpha, rest));
        while j < closes.len()
            invariant
                period <= j <= closes@.len(),
                ema_spec(closes@, period as nat) == ema_run(seed, alpha, rest),
                rest == closes@.skip(period as int),
                ema_run(seed, alpha, rest.take(j - period)) == Some(series@),
                series@.len() >= 1,
            decreases closes.len() - j,
        {
            proof {
                assert(rest.take(j - period + 1).drop_last() =~= rest.take(j - period));
                assert(rest.take(j - period + 1).last() == closes@[j as int]);
            }
            let prev = series[series.len() - 1];
            let a = match alpha.checked_mul(&closes[j]) {
                Some(v) => v,
                None => {
                    proof {
                        lemma_ema_none_extends(seed, alpha, rest, j - period + 1);
                    }
                    return None;
                },
            };
            let rest_weight = match Dec::from_i64(1).checked_sub(&alpha) {
                Some(v) => v,
                None => {
                    proof {
                        lemma_ema_none_extends(seed, alpha, rest, j - period + 1);
                    }
                    return None;
                },
            };
            let b = match rest_weight.checked_mul(&prev) {
                Some(v) => v,
                None => {
                    proof {
                        lemma_ema_none_extends(seed, alpha, rest, j - period + 1);
                    }
                    return None;
                },
            };
            let next = match a.checked_add(&b) {
                Some(v) => v,
                None => {
                    proof {
                        lemma_ema_none_extends(seed, alpha, rest, j - period + 1);
                    }
                    return None;
                },
            };
            series.push(next);
            j = j + 1;
        }
        proof {
            assert(rest.take(j - period) =~= rest);
        }
        Some(series)
    }

    fn cross(&self, closes: &Vec<Price>) -> (r: Option<(bool, bool)>)
        ensures
            r == macd_signal(closes@, self.fast as nat, self.slow as nat, self.signal as nat),
    {
        if closes.len() < self.slow || closes.len() - self.slow < self.signal {
            return None;
        }
        let fast_ema = match Self::ema_series(closes, self.fast) {
            Some(v) => v,
            None => return None,
        };
        let slow_ema = match Self::ema_series(closes, self.slow) {
            Some(v) => v,
            None => return None,
        };
        if fast_ema.len() < slow_ema.len() {
            return None;
        }
        let offset = fast_ema.len() - slow_ema.len();
        let mut macd: Vec<Dec> = Vec::new();
        let mut i: usize = 0;
        while i < slow_ema.len()
            invariant
                0 <= i <= slow_ema@.len(),
                closes@.len() >= self.slow + self.signal,
                ema_spec(closes@, self.fast as nat) == Some(fast_ema@),
                ema_spec(closes@, self.slow as nat) == Some(slow_ema@),
                offset == fast_ema@.len() - slow_ema@.len(),
                fast_ema@.len() >= slow_ema@.len(),
                macd_prefix(fast_ema@, slow_ema@, offset as int, i as nat) == Some(macd@),
            decreases slow_ema.len() - i,
        {
            assert(i + offset < fast_ema@.len());
            let v = match fast_ema[i + offset].checked_sub(&slow_ema[i]) {
                Some(v) => v,
                None => {
                    proof {
                        lemma_macd_none_extends(fast_ema@, slow_ema@, offset as int, (i + 1) as nat, slow_ema@.len());
                    }
                    return None;
                },
            };
            macd.push(v);
            i = i + 1;
        }
        if macd.len() <= self.signal {
            return None;
        }
        let signal_series = match Self::ema_series(&macd, self.signal) {
            Some(v) => v,
            None => return None,
        };
        if signal_series.len() < 2 || macd.len() < 2 {
            return None;
        }
        let macd_now = macd[macd.len() - 1];
        let signal_now = signal_series[signal_series.len() - 1];
        let macd_prev = macd[macd.len() - 2];
        let signal_prev = signal_series[signal_series.len() - 2];
        Some(
            (
                macd_prev.le(&signal_prev) && macd_now.gt(&signal_now),
                macd_prev.ge(&signal_prev) && macd_now.lt(&signal_now),
            ),
        )
    }

    /// What the strategy does for one symbol.
    pub closed spec fn step(&self, snapshot: MarketSnapshot, s: Seq<char>) -> StepView {
        match history_for(snapshot.history@, s) {
            None => StepView { intent: None, features: Seq::empty() },
            Some(closes) => match macd_signal(closes, self.fast as nat, self.slow as nat, self.signal as nat) {
                None => StepView { intent: None, features: Seq::empty() },
                Some((bullish, bearish)) => StepView {
                    intent: signal_intent(s, bullish, bearish, held_for(snapshot.positions@, s), self.quantity),
                    features: seq![
                        (feature_key(s, "bullish"@), bool_text(bullish)),
                        (feature_key(s, "bearish"@), bool_text(bearish)),
                    ],
                },
            },
        }
    }

    fn step_exec(&self, snapshot: &MarketSnapshot, symbol: &Symbol, intents: &mut Vec<OrderIntent>, features: &mut Features)
        ensures
            intent_views(final(intents)@) == (match self.step(*snapshot, symbol@).intent {
                Some(x) => intent_views(old(intents)@).push(x),
                None => intent_views(old(intents)@),
            }),
            final(features)@ == insert_all(old(features)@, self.step(*snapshot, symbol@).features),
    {
        let ghost s = symbol@;
        let ghost m = features@;
        proof {
            lemma_insert_all_small(m, (s, s), (s, s), (s, s));
        }
        let closes = match snapshot.closes_for(symbol) {
            Some(c) => c,
            None => return,
        };
        let (bullish, bearish) = match self.cross(closes) {
            Some(v) => v,
            None => return,
        };
        features.insert(feature_name(symbol, "bullish"), bool_string(bullish));
        features.insert(feature_name(symbol, "bearish"), bool_string(bearish));
        let held = snapshot.held_shares(symbol);
        push_signal(intents, symbol, bullish, bearish, held, self.quantity);
        proof {
            reveal_strlit("bullish");
            reveal_strlit("bearish");
            let a = (feature_key(s, "bullish"@), bool_text(bullish));
            let b = (feature_key(s, "bearish"@), bool_text(bearish));
            lemma_insert_all_small(m, a, b, b);
        }
    }
}

impl Strategy for MacdCrossStrategy {
    open spec fn label(&self) -> Seq<char> {
        "macd-cross"@
    }

    open spec fn version_label(&self) -> Seq<char> {
        "1"@
    }

    open spec fn decision_for(&self, snapshot: MarketSnapshot) -> DecisionView {
        let symbols = self.symbol_list();
        let step = |s: Seq<char>| self.step(snapshot, s);
        let intents = fold_intents(symbols, step);
        DecisionView {
            name: "macd-cross"@,
            version: "1"@,
            intents,
            features: fold_features(symbols, step),
            rationale: if intents.len() == 0 {
                "no macd signals"@
            } else {
                "macd crossover"@
            },
        }
    }

    fn name(&self) -> (r: &str) {
        "macd-cross"
    }

    fn version(&self) -> (r: &str) {
        "1"
    }

    fn decide(&self, snapshot: &MarketSnapshot) -> (r: StrategyDecision) {
        let ghost symbols = self.symbol_list();
        let ghost step = |s: Seq<char>| self.step(*snapshot, s);
        let mut intents: Vec<OrderIntent> = Vec::new();
        let mut features = Features::new();
        let mut i: usize = 0;
        while i < self.symbols.len()
            invariant
                0 <= i <= self.symbols@.len(),
                symbols == self.symbol_list(),
                symbols == symbol_texts(self.symbols@),
                step == (|s: Seq<char>| self.step(*snapshot, s)),
                intent_views(intents@) == fold_intents(symbols.take(i as int), step),
                features@ == fold_features(symbols.take(i as int), step),
            decreases self.symbols.len() - i,
        {
            proof {
                lemma_fold_step(symbols, step, i as int);
            }
            self.step_exec(snapshot, &self.symbols[i], &mut intents, &mut features);
            i = i + 1;
        }
        proof {
            assert(symbols.take(i as int) =~= symbols);
            reveal_strlit("macd-cross");
            reveal_strlit("1");
            reveal_strlit("no macd signals");
            reveal_strlit("macd crossover");
        }
        let rationale = if intents.len() == 0 {
            String::from_str("no macd signals")
        } else {
            String::from_str("macd crossover")
        };
        StrategyDecision {
            strategy_name: String::from_str("macd-cross"),
            strategy_version: String::from_str("1"),
            intents,
            features,
            rationale,
        }
    }
}

/// Once a prefix of the smoothing overflows, the whole series does.
pub proof fn lemma_ema_none_extends(seed: Dec, alpha: Dec, rest: Seq<Dec>, k: int)
    requires
        0 <= k <= rest.len(),
        ema_run(seed, alpha, rest.take(k)) is None,
    ensures
        ema_run(seed, alpha, rest) is None,
    decreases rest.len() - k,
{
    if k < rest.len() {
        assert(rest.take(k + 1).drop_last() =~= rest.take(k));
        lemma_ema_none_extends(seed, alpha, rest, k + 1);
    } else {
        assert(rest.take(k) =~= rest);
    }
}

/// Once a prefix of the MACD line overflows, every longer one does.
pub proof fn lemma_macd_none_extends(fast: Seq<Dec>, slow: Seq<Dec>, offset: int, k: nat, n: nat)
    requires
        k <= n,
        macd_prefix(fast, slow, offset, k) is None,
    ensures
        macd_prefix(fast, slow, offset, n) is None,
    decreases n - k,
{
    if k < n {
        lemma_macd_none_extends(fast, slow, offset, k + 1, n);
    }
}

/// 12-1 momentum: the return from 253 bars back to 22 bars back; `None`
/// with fewer than 253 closes, a zero base, or overflow.
pub open spec fn momentum_score_spec(closes: Seq<Dec>) -> Option<Dec> {
    if closes.len() < 253 {
        None
    } else {
        let recent = closes[closes.len() - 22];
        let base = closes[closes.len() - 253];
        if base.mant() == 0 {
            None
        } else {
            match decimal_checked_sub(recent, base) {
                Some(d) => decimal_checked_div(d, base),
                None => None,
            }
        }
    }
}

/// `a` ranks before `b`: higher score first, then ticker order.
pub open spec fn ranks_before(a: (Seq<char>, Dec), b: (Seq<char>, Dec)) -> bool {
    dec_lt(b.1, a.1) || (dec_eq(a.1, b.1) && text_lt(a.0, b.0))
}

/// `x` placed before the first entry it ranks before (after all others).
pub open spec fn rank_insert(s: Seq<(Seq<char>, Dec)>, x: (Seq<char>, Dec)) -> Seq<(Seq<char>, Dec)>
    decreases s.len(),
{
    if s.len() == 0 {
        seq![x]
    } else if ranks_before(x, s[0]) {
        seq![x] + s
    } else {
        seq![s[0]] + rank_insert(s.skip(1), x)
    }
}

/// The entries in rank order; equally ranked entries keep their order
/// (a stable sort).
pub open spec fn ranked(s: Seq<(Seq<char>, Dec)>) -> Seq<(Seq<char>, Dec)>
    decreases s.len(),
{
    if s.len() == 0 {
        Seq::empty()
    } else {
        rank_insert(ranked(s.drop_last()), s.last())
    }
}

/// Inserting at the first position `x` ranks before.
pub proof fn lemma_rank_insert_at(s: Seq<(Seq<char>, Dec)>, x: (Seq<char>, Dec), i: int)
    requires
        0 <= i <= s.len(),
        forall|j: int| 0 <= j < i ==> !ranks_before(x, #[trigger] s[j]),
        i < s.len() ==> ranks_before(x, s[i]),
    ensures
        rank_insert(s, x) == s.insert(i, x),
    decreases s.len(),
{
    if s.len() == 0 {
        assert(s.insert(i, x) =~= seq![x]);
    } else if i == 0 {
        assert(s.insert(0, x) =~= seq![x] + s);
    } else {
        let t = s.skip(1);
        assert forall|j: int| 0 <= j < i - 1 implies !ranks_before(x, #[trigger] t[j]) by {
            assert(t[j] == s[j + 1]);
        }
        if i - 1 < t.len() {
            assert(t[i - 1] == s[i]);
        }
        lemma_rank_insert_at(t, x, i - 1);
        assert(s.insert(i, x) =~= seq![s[0]] + t.insert(i - 1, x));
    }
}

pub open spec fn score_views(s: Seq<(Symbol, Dec)>) -> Seq<(Seq<char>, Dec)> {
    Seq::new(s.len(), |i: int| (s[i].0@, s[i].1))
}

/// Buys for the top-ranked symbols not yet held.
pub open spec fn momentum_buys(top: Seq<(Seq<char>, Dec)>, positions: Seq<crate::domain::portfolio::PositionState>, quantity: i64) -> Seq<IntentView>
    decreases top.len(),
{
    if top.len() == 0 {
        Seq::empty()
    } else {
        let before = momentum_buys(top.drop_last(), positions, quantity);
        if held_for(positions, top.last().0) == 0 {
            before.push(market_intent(top.last().0, OrderSide::Buy, quantity))
        } else {
            before
        }
    }
}

/// Exits for held symbols that fell out of the top.
pub open spec fn momentum_sells(rest: Seq<(Seq<char>, Dec)>, positions: Seq<crate::domain::portfolio::PositionState>, quantity: i64) -> Seq<IntentView>
    decreases rest.len(),
{
    if rest.len() == 0 {
        Seq::empty()
    } else {
        let before = momentum_sells(rest.drop_last(), positions, quantity);
        match position_for(positions, rest.last().0) {
            Some(p) => if p.quantity > 0 {
                before.push(market_intent(rest.last().0, OrderSide::Sell, sell_size(p.quantity, quantity)))
            } else {
                before
            },
            None => before,
        }
    }
}

/// 12-1 momentum rotation: rank by trailing 12-month return excluding the
/// most recent month; hold the top N.
pub struct MomentumRotationStrategy {
    symbols: Vec<Symbol>,
    top_n: usize,
    quantity: Quantity,
}

impl MomentumRotationStrategy {
    pub fn new(symbols: Vec<Symbol>, top_n: usize, quantity: Quantity) -> (r: MomentumRotationStrategy)
        ensures
            r.symbol_list() == symbol_texts(symbols@),
            r.settings() == (top_n, quantity),
    {
        MomentumRotationStrategy { symbols, top_n, quantity }
    }

    pub closed spec fn symbol_list(self) -> Seq<Seq<char>> {
        symbol_texts(self.symbols@)
    }

    pub closed spec fn settings(self) -> (usize, i64) {
        (self.top_n, self.quantity)
    }

    pub fn momentum_score(closes: &Vec<Price>) -> (r: Option<Dec>)
        ensures
            r == momentum_score_spec(closes@),
    {
        if closes.len() < 253 {
            return None;
        }
        let recent = closes[closes.len() - 22];
        let base = closes[closes.len() - 253];
        if base.is_zero() {
            return None;
        }
        match recent.checked_sub(&base) {
            Some(d) => d.checked_div(&base),
            None => None,
        }
    }

    /// The score step for one symbol: its rounded score as a feature.
    pub open spec fn score_step(snapshot: MarketSnapshot, s: Seq<char>) -> StepView {
        match history_for(snapshot.history@, s) {
            None => StepView { intent: None, features: Seq::empty() },
            Some(closes) => match momentum_score_spec(closes) {
                None => StepView { intent: None, features: Seq::empty() },
                Some(v) => StepView {
                    intent: None,
                    features: seq![(feature_key(s, "score"@), decimal_text(decimal_round_dp(v, 4)))],
                },
            },
        }
    }

    /// The scored symbols, in the strategy's symbol order.
    pub open spec fn scored(symbols: Seq<Seq<char>>, snapshot: MarketSnapshot) -> Seq<(Seq<char>, Dec)>
        decreases symbols.len(),
    {
        if symbols.len() == 0 {
            Seq::empty()
        } else {
            let before = Self::scored(symbols.drop_last(), snapshot);
            match history_for(snapshot.history@, symbols.last()) {
                Some(closes) => match momentum_score_spec(closes) {
                    Some(v) => before.push((symbols.last(), v)),
                    None => before,
                },
                None => before,
            }
        }
    }

    pub open spec fn rotation_intents(&self, snapshot: MarketSnapshot) -> Seq<IntentView> {
        let order = ranked(Self::scored(self.symbol_list(), snapshot));
        let n = self.settings().0 as int;
        let top = if n >= order.len() { order } else { order.take(n) };
        let rest = if n >= order.len() { Seq::empty() } else { order.skip(n) };
        momentum_buys(top, snapshot.positions@, self.settings().1) + momentum_sells(rest, snapshot.positions@, self.settings().1)
    }

    fn rank_scores(scores: Vec<(Symbol, Dec)>) -> (r: Vec<(Symbol, Dec)>)
        ensures
            score_views(r@) == ranked(score_views(scores@)),
    {
        let mut out: Vec<(Symbol, Dec)> = Vec::new();
        let mut k: usize = 0;
        while k < scores.len()
            invariant
                0 <= k <= scores@.len(),
                score_views(out@) == ranked(score_views(scores@).take(k as int)),
            decreases scores.len() - k,
        {
            let ghost before = score_views(out@);
            let ghost x = (scores@[k as int].0@, scores@[k as int].1);
            let mut i: usize = 0;
            while i < out.len()
                invariant
                    0 <= i <= out@.len(),
                    k < scores@.len(),
                    before == score_views(out@),
                    x == (scores@[k as int].0@, scores@[k as int].1),
                    forall|j: int| 0 <= j < i ==> !ranks_before(x, #[trigger] before[j]),
                ensures
                    0 <= i <= out@.len(),
                    forall|j: int| 0 <= j < i ==> !ranks_before(x, #[trigger] before[j]),
                    i < out@.len() ==> ranks_before(x, before[i as int]),
                decreases out.len() - i,
            {
                let later = scores[k].1.gt(&out[i].1);
                let tie = scores[k].1.same_value(&out[i].1) && text_less(scores[k].0.as_str(), out[i].0.as_str());
                if later || tie {
                    break;
                }
                i = i + 1;
            }
            proof {
                lemma_rank_insert_at(before, x, i as int);
                assert(score_views(scores@).take(k + 1).drop_last() =~= score_views(scores@).take(k as int));
            }
            let item = (scores[k].0.duplicate(), scores[k].1);
            out.insert(i, item);
            proof {
                assert(score_views(out@) =~= before.insert(i as int, x));
            }
            k = k + 1;
        }
        proof {
            assert(score_views(scores@).take(k as int) =~= score_views(scores@));
        }
        out
    }
}

impl Strategy for MomentumRotationStrategy {
    open spec fn label(&self) -> Seq<char> {
        "momentum-rotation"@
    }

    open spec fn version_label(&self) -> Seq<char> {
        "1"@
    }

    open spec fn decision_for(&self, snapshot: MarketSnapshot) -> DecisionView {
        DecisionView {
            name: "momentum-rotation"@,
            version: "1"@,
            intents: self.rotation_intents(snapshot),
            features: fold_features(self.symbol_list(), |s: Seq<char>| Self::score_step(snapshot, s)),
            rationale: "top-"@ + int_text(self.settings().0 as int) + " by 12-1 momentum"@,
        }
    }

    fn name(&self) -> (r: &str) {
        "momentum-rotation"
    }

    fn version(&self) -> (r: &str) {
        "1"
    }

    fn decide(&self, snapshot: &MarketSnapshot) -> (r: StrategyDecision) {
        let ghost symbols = self.symbol_list();
        let ghost step = |s: Seq<char>| Self::score_step(*snapshot, s);
        let mut features = Features::new();
        let mut scores: Vec<(Symbol, Dec)> = Vec::new();
        let mut i: usize = 0;
        while i < self.symbols.len()
            invariant
                0 <= i <= self.symbols@.len(),
                symbols == self.symbol_list(),
                symbols == symbol_texts(self.symbols@),
                step == (|s: Seq<char>| Self::score_step(*snapshot, s)),
                features@ == fold_features(symbols.take(i as int), step),
                score_views(scores@) == Self::scored(symbols.take(i as int), *snapshot),
            decreases self.symbols.len() - i,
        {
            proof {
                lemma_fold_step(symbols, step, i as int);
                assert(symbols.take(i + 1).drop_last() =~= symbols.take(i as int));
                assert(symbols.take(i + 1).last() == symbols[i as int]);
            }
            let symbol = &self.symbols[i];
            let ghost s = symbol@;
            let ghost m = features@;
            proof {
                lemma_insert_all_small(m, (s, s), (s, s), (s, s));
            }
            match snapshot.closes_for(symbol) {
                Some(closes) => match Self::momentum_score(closes) {
                    Some(score) => {
                        features.insert(feature_name(symbol, "score"), score.round_dp(4).to_text());
                        let ghost before = scores@;
                        scores.push((symbol.duplicate(), score));
                        proof {
                            reveal_strlit("score");
                            let f = (feature_key(s, "score"@), decimal_text(decimal_round_dp(score, 4)));
                            lemma_insert_all_small(m, f, f, f);
                            assert(score_views(scores@) =~= score_views(before).push((s, score)));
                        }
                    },
                    None => {},
                },
                None => {},
            }
            i = i + 1;
        }
        proof {
            assert(symbols.take(i as int) =~= symbols);
        }
        let order = Self::rank_scores(scores);
        let ghost ranked_view = score_views(order@);
        let n = if self.top_n >= order.len() {
            order.len()
        } else {
            self.top_n
        };
        let mut intents: Vec<OrderIntent> = Vec::new();
        let mut k: usize = 0;
        while k < n
            invariant
                0 <= k <= n <= order@.len(),
                ranked_view == score_views(order@),
                intent_views(intents@) == momentum_buys(ranked_view.take(k as int), snapshot.positions@, self.quantity),
            decreases n - k,
        {
            proof {
                assert(ranked_view.take(k + 1).drop_last() =~= ranked_view.take(k as int));
            }
            let held = snapshot.held_shares(&order[k].0);
            if held == 0 {
                let ghost before = intents@;
                intents.push(market_order(&order[k].0, OrderSide::Buy, self.quantity));
                assert(intent_views(intents@) =~= intent_views(before).push(
                    market_intent(order@[k as int].0@, OrderSide::Buy, self.quantity),
                ));
            }
            k = k + 1;
        }
        let ghost buys = intent_views(intents@);
        let mut j: usize = n;
        while j < order.len()
            invariant
                n <= j <= order@.len(),
                ranked_view == score_views(order@),
                intent_views(intents@) == buys + momentum_sells(ranked_view.subrange(n as int, j as int), snapshot.positions@, self.quantity),
            decreases order.len() - j,
        {
            proof {
                assert(ranked_view.subrange(n as int, j + 1).drop_last() =~= ranked_view.subrange(n as int, j as int));
            }
            match snapshot.position_of(&order[j].0) {
                Some(p) => {
                    if p.quantity > 0 {
                        let size = if p.quantity <= self.quantity {
                            p.quantity
                        } else {
                            self.quantity
                        };
                        let ghost before = intents@;
                        intents.push(market_order(&order[j].0, OrderSide::Sell, size));
                        assert(intent_views(intents@) =~= intent_views(before).push(
                            market_intent(order@[j as int].0@, OrderSide::Sell, size),
                        ));
                    }
                },
                None => {},
            }
            j = j + 1;
        }
        proof {
            if self.top_n >= order@.len() {
                assert(ranked_view.take(n as int) =~= ranked_view);
                assert(ranked_view.subrange(n as int, j as int) =~= Seq::<(Seq<char>, Dec)>::empty());
            } else {
                assert(ranked_view.subrange(n as int, j as int) =~= ranked_view.skip(n as int));
            }
            reveal_strlit("momentum-rotation");
            reveal_strlit("1");
            reveal_strlit("top-");
            reveal_strlit(" by 12-1 momentum");
        }
        let mut rationale = String::from_str("top-");
        let count = u64_text(self.top_n as u64);
        rationale.append(count.as_str());
        rationale.append(" by 12-1 momentum");
        StrategyDecision {
            strategy_name: String::from_str("momentum-rotation"),
            strategy_version: String::from_str("1"),
            intents,
            features,
            rationale,
        }
    }
}

} // verus!
