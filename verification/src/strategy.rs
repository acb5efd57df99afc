//! Strategy layer — deterministic decision interface.
//!
//! A strategy is a pure function of the market snapshot: same snapshot in,
//! same decision out — no clocks, no randomness, no I/O. The decision layer
//! wraps a strategy and records every decision (feature digest + signals)
//! so any signal can be reproduced and audited after the fact.

use vstd::prelude::*;
use crate::decimal::{Dec, dec_le, decimal_text};
use crate::domain::portfolio::PositionState;
use crate::features::Features;
use crate::text::{int_text, i64_text};
use crate::symbol_table::SymbolTable;
use crate::types::{OrderSide, OrderType, Price, Quantity, Quote, Symbol, find_quote, quote_for, symbol_code};

verus! {

/// Everything a strategy is allowed to see for one decision.
#[derive(Debug, Clone)]
pub struct MarketSnapshot {
    pub quotes: Vec<Quote>,
    pub positions: Vec<PositionState>,
    /// Opaque session label; ordering is handled upstream.
    pub as_of: String,
    /// Completed past-bar closes per symbol (oldest first) — the only past
    /// data strategies may see; look-ahead is impossible by construction.
    pub history: Vec<(Symbol, Vec<Price>)>,
}

/// The closes recorded for a symbol (the first entry naming it).
pub open spec fn history_for(h: Seq<(Symbol, Vec<Dec>)>, symbol: Seq<char>) -> Option<Seq<Dec>>
    decreases h.len(),
{
    if h.len() == 0 {
        None
    } else if h[0].0@ == symbol {
        Some(h[0].1@)
    } else {
        history_for(h.skip(1), symbol)
    }
}

/// The position held in a symbol (the first entry naming it).
pub open spec fn position_for(p: Seq<PositionState>, symbol: Seq<char>) -> Option<PositionState>
    decreases p.len(),
{
    if p.len() == 0 {
        None
    } else if p[0].symbol@ == symbol {
        Some(p[0])
    } else {
        position_for(p.skip(1), symbol)
    }
}

/// Shares held in a symbol (0 without a position).
pub open spec fn held_for(p: Seq<PositionState>, symbol: Seq<char>) -> i64 {
    match position_for(p, symbol) {
        Some(pos) => pos.quantity,
        None => 0,
    }
}

impl MarketSnapshot {
    pub fn closes_for(&self, symbol: &Symbol) -> (r: Option<&Vec<Price>>)
        ensures
            match r {
                Some(v) => history_for(self.history@, symbol@) == Some(v@),
                None => history_for(self.history@, symbol@) is None,
            },
    {
        let mut i: usize = 0;
        assert(self.history@.skip(0) =~= self.history@);
        while i < self.history.len()
            invariant
                0 <= i <= self.history@.len(),
                history_for(self.history@, symbol@) == history_for(self.history@.skip(i as int), symbol@),
            decreases self.history.len() - i,
        {
            proof {
                assert(self.history@.skip(i as int)[0] == self.history@[i as int]);
                assert(self.history@.skip(i as int).skip(1) =~= self.history@.skip(i + 1));
            }
            if self.history[i].0.same(symbol) {
                return Some(&self.history[i].1);
            }
            i = i + 1;
        }
        None
    }

    pub fn position_of(&self, symbol: &Symbol) -> (r: Option<&PositionState>)
        ensures
            match r {
                Some(p) => position_for(self.positions@, symbol@) == Some(*p),
                None => position_for(self.positions@, symbol@) is None,
            },
    {
        let mut i: usize = 0;
        assert(self.positions@.skip(0) =~= self.positions@);
        while i < self.positions.len()
            invariant
                0 <= i <= self.positions@.len(),
                position_for(self.positions@, symbol@) == position_for(self.positions@.skip(i as int), symbol@),
            decreases self.positions.len() - i,
        {
            proof {
                assert(self.positions@.skip(i as int)[0] == self.positions@[i as int]);
                assert(self.positions@.skip(i as int).skip(1) =~= self.positions@.skip(i + 1));
            }
            if self.positions[i].symbol.same(symbol) {
                return Some(&self.positions[i]);
            }
            i = i + 1;
        }
        None
    }

    pub fn held_shares(&self, symbol: &Symbol) -> (r: i64)
        ensures
            r == held_for(self.positions@, symbol@),
    {
        match self.position_of(symbol) {
            Some(p) => p.quantity,
            None => 0,
        }
    }
}

/// A desired trade, before risk checks and id assignment.
#[derive(Debug, Clone)]
pub struct OrderIntent {
    pub symbol: Symbol,
    pub side: OrderSide,
    pub order_type: OrderType,
    pub quantity: Quantity,
    pub limit_price: Option<Price>,
}

pub struct IntentView {
    pub symbol: Seq<char>,
    pub side: OrderSide,
    pub order_type: OrderType,
    pub quantity: i64,
    pub limit_price: Option<Dec>,
}

impl View for OrderIntent {
    type V = IntentView;

    open spec fn view(&self) -> IntentView {
        IntentView {
            symbol: self.symbol@,
            side: self.side,
            order_type: self.order_type,
            quantity: self.quantity,
            limit_price: self.limit_price,
        }
    }
}

pub open spec fn intent_views(s: Seq<OrderIntent>) -> Seq<IntentView> {
    Seq::new(s.len(), |i: int| s[i]@)
}

/// A market order for `quantity` shares.
pub open spec fn market_intent(symbol: Seq<char>, side: OrderSide, quantity: i64) -> IntentView {
    IntentView { symbol, side, order_type: OrderType::Market, quantity, limit_price: None }
}

/// The market order a strategy places for a symbol.
pub fn market_order(symbol: &Symbol, side: OrderSide, quantity: Quantity) -> (r: OrderIntent)
    ensures
        r@ == market_intent(symbol@, side, quantity),
{
    OrderIntent { symbol: symbol.duplicate(), side, order_type: OrderType::Market, quantity, limit_price: None }
}

/// The output of one strategy invocation, fully self-describing.
#[derive(Debug)]
pub struct StrategyDecision {
    pub strategy_name: String,
    pub strategy_version: String,
    pub intents: Vec<OrderIntent>,
    /// The exact inputs the signals derive from.
    pub features: Features,
    pub rationale: String,
}

pub struct DecisionView {
    pub name: Seq<char>,
    pub version: Seq<char>,
    pub intents: Seq<IntentView>,
    pub features: Map<Seq<char>, Seq<char>>,
    pub rationale: Seq<char>,
}

impl View for StrategyDecision {
    type V = DecisionView;

    open spec fn view(&self) -> DecisionView {
        DecisionView {
            name: self.strategy_name@,
            version: self.strategy_version@,
            intents: intent_views(self.intents@),
            features: self.features@,
            rationale: self.rationale@,
        }
    }
}

/// What one strategy step contributes for one symbol.
pub struct StepView {
    pub intent: Option<IntentView>,
    pub features: Seq<(Seq<char>, Seq<char>)>,
}

/// `m` with the features set in order (later ones win).
pub open spec fn insert_all(m: Map<Seq<char>, Seq<char>>, fs: Seq<(Seq<char>, Seq<char>)>) -> Map<Seq<char>, Seq<char>>
    decreases fs.len(),
{
    if fs.len() == 0 {
        m
    } else {
        insert_all(m, fs.drop_last()).insert(fs.last().0, fs.last().1)
    }
}

/// The intents of the steps over `symbols`, in order.
pub open spec fn fold_intents(symbols: Seq<Seq<char>>, step: spec_fn(Seq<char>) -> StepView) -> Seq<IntentView>
    decreases symbols.len(),
{
    if symbols.len() == 0 {
        Seq::empty()
    } else {
        let before = fold_intents(symbols.drop_last(), step);
        match step(symbols.last()).intent {
            Some(i) => before.push(i),
            None => before,
        }
    }
}

/// The features of the steps over `symbols`, in order.
pub open spec fn fold_features(symbols: Seq<Seq<char>>, step: spec_fn(Seq<char>) -> StepView) -> Map<Seq<char>, Seq<char>>
    decreases symbols.len(),
{
    if symbols.len() == 0 {
        Map::empty()
    } else {
        insert_all(fold_features(symbols.drop_last(), step), step(symbols.last()).features)
    }
}

pub open spec fn symbol_texts(s: Seq<Symbol>) -> Seq<Seq<char>> {
    Seq::new(s.len(), |i: int| s[i]@)
}

/// `"{a}:{b}"`.
pub open spec fn feature_key(symbol: Seq<char>, suffix: Seq<char>) -> Seq<char> {
    symbol + ":"@ + suffix
}

pub fn feature_name(symbol: &Symbol, suffix: &str) -> (r: String)
    ensures
        r@ == feature_key(symbol@, suffix@),
{
    let mut text = String::from_str(symbol.as_str());
    text.append(":");
    text.append(suffix);
    proof {
        reveal_strlit(":");
    }
    text
}

pub open spec fn bool_text(b: bool) -> Seq<char> {
    if b {
        "true"@
    } else {
        "false"@
    }
}

pub fn bool_string(b: bool) -> (r: String)
    ensures
        r@ == bool_text(b),
{
    proof {
        reveal_strlit("true");
        reveal_strlit("false");
    }
    if b {
        String::from_str("true")
    } else {
        String::from_str("false")
    }
}

/// One more symbol extends the folds by its step.
pub proof fn lemma_fold_step(symbols: Seq<Seq<char>>, step: spec_fn(Seq<char>) -> StepView, i: int)
    requires
        0 <= i < symbols.len(),
    ensures
        fold_intents(symbols.take(i + 1), step) == (match step(symbols[i]).intent {
            Some(x) => fold_intents(symbols.take(i), step).push(x),
            None => fold_intents(symbols.take(i), step),
        }),
        fold_features(symbols.take(i + 1), step) == insert_all(
            fold_features(symbols.take(i), step),
            step(symbols[i]).features,
        ),
{
    assert(symbols.take(i + 1).drop_last() =~= symbols.take(i));
}

/// Setting one, two or three features in order.
pub proof fn lemma_insert_all_small(m: Map<Seq<char>, Seq<char>>, a: (Seq<char>, Seq<char>), b: (Seq<char>, Seq<char>), c: (Seq<char>, Seq<char>))
    ensures
        insert_all(m, Seq::empty()) == m,
        insert_all(m, seq![a]) == m.insert(a.0, a.1),
        insert_all(m, seq![a, b]) == m.insert(a.0, a.1).insert(b.0, b.1),
        insert_all(m, seq![a, b, c]) == m.insert(a.0, a.1).insert(b.0, b.1).insert(c.0, c.1),
{
    assert(seq![a].drop_last() =~= Seq::<(Seq<char>, Seq<char>)>::empty());
    assert(seq![a, b].drop_last() =~= seq![a]);
    assert(seq![a, b, c].drop_last() =~= seq![a, b]);
    assert(insert_all(m, Seq::<(Seq<char>, Seq<char>)>::empty()) == m);
    assert(insert_all(m, seq![a]) == insert_all(m, seq![a].drop_last()).insert(a.0, a.1));
    assert(insert_all(m, seq![a, b]) == insert_all(m, seq![a]).insert(b.0, b.1));
    assert(insert_all(m, seq![a, b, c]) == insert_all(m, seq![a, b]).insert(c.0, c.1));
}

/// Deterministic signal generator.
pub trait Strategy {
    spec fn label(&self) -> Seq<char>;

    spec fn version_label(&self) -> Seq<char>;

    /// The decision the strategy makes on a snapshot.
    spec fn decision_for(&self, snapshot: MarketSnapshot) -> DecisionView;

    fn name(&self) -> (r: &str)
        ensures
            r@ == self.label(),
    ;

    fn version(&self) -> (r: &str)
        ensures
            r@ == self.version_label(),
    ;

    fn decide(&self, snapshot: &MarketSnapshot) -> (r: StrategyDecision)
        ensures
            r@ == self.decision_for(*snapshot),
    ;
}

/// Decisions are reproducible: what a strategy decides is a function of
/// the snapshot alone, so the same snapshot always yields the same
/// decision (intents, features and rationale).
pub proof fn same_snapshot_same_decision<S: Strategy>(strategy: S, a: MarketSnapshot, b: MarketSnapshot)
    requires
        a == b,
    ensures
        strategy.decision_for(a) == strategy.decision_for(b),
{
}

/// Runs a strategy and records every decision for audit/replay.
pub struct DecisionLayer<S> {
    strategy: S,
    decisions: Vec<StrategyDecision>,
}

pub open spec fn decision_views(s: Seq<StrategyDecision>) -> Seq<DecisionView> {
    Seq::new(s.len(), |i: int| s[i]@)
}

impl<S: Strategy> DecisionLayer<S> {
    pub closed spec fn inner(self) -> S {
        self.strategy
    }

    /// The decisions made so far, oldest first.
    pub closed spec fn log(self) -> Seq<DecisionView> {
        decision_views(self.decisions@)
    }

    pub fn new(strategy: S) -> (r: DecisionLayer<S>)
        ensures
            r.inner() == strategy,
            r.log() == Seq::<DecisionView>::empty(),
    {
        let r = DecisionLayer { strategy, decisions: Vec::new() };
        assert(r.log() =~= Seq::<DecisionView>::empty());
        r
    }

    pub fn strategy_version(&self) -> (r: &str)
        ensures
            r@ == self.inner().version_label(),
    {
        self.strategy.version()
    }

    pub fn strategy_name(&self) -> (r: &str)
        ensures
            r@ == self.inner().label(),
    {
        self.strategy.name()
    }

    /// Decide, and record the decision.
    pub fn decide(&mut self, snapshot: &MarketSnapshot) -> (r: StrategyDecision)
        ensures
            r@ == old(self).inner().decision_for(*snapshot),
            final(self).inner() == old(self).inner(),
            final(self).log() == old(self).log().push(r@),
    {
        let decision = self.strategy.decide(snapshot);
        let copy = copy_decision(&decision);
        let ghost before = self.decisions@;
        self.decisions.push(copy);
        proof {
            assert(decision_views(self.decisions@) =~= decision_views(before).push(decision@));
        }
        decision
    }

    /// Copies of the recorded decisions, oldest first.
    pub fn decisions(&self) -> (r: Vec<StrategyDecision>)
        ensures
            decision_views(r@) == self.log(),
    {
        let mut out: Vec<StrategyDecision> = Vec::new();
        let mut i: usize = 0;
        while i < self.decisions.len()
            invariant
                0 <= i <= self.decisions@.len(),
                out@.len() == i,
                forall|j: int| 0 <= j < i ==> #[trigger] out@[j]@ == self.decisions@[j]@,
            decreases self.decisions.len() - i,
        {
            out.push(copy_decision(&self.decisions[i]));
            i = i + 1;
        }
        assert(decision_views(out@) =~= decision_views(self.decisions@));
        out
    }
}

pub fn copy_intents(intents: &Vec<OrderIntent>) -> (r: Vec<OrderIntent>)
    ensures
        intent_views(r@) == intent_views(intents@),
{
    let mut out: Vec<OrderIntent> = Vec::new();
    let mut i: usize = 0;
    while i < intents.len()
        invariant
            0 <= i <= intents@.len(),
            out@.len() == i,
            forall|j: int| 0 <= j < i ==> #[trigger] out@[j]@ == intents@[j]@,
        decreases intents.len() - i,
    {
        let it = &intents[i];
        out.push(
            OrderIntent {
                symbol: it.symbol.duplicate(),
                side: it.side,
                order_type: it.order_type,
                quantity: it.quantity,
                limit_price: it.limit_price,
            },
        );
        i = i + 1;
    }
    assert(intent_views(out@) =~= intent_views(intents@));
    out
}

pub fn copy_features(features: &Features) -> (r: Features)
    ensures
        r@ == features@,
{
    features.check_pairs();
    let mut out = Features::new();
    let n = features.len();
    let mut i: usize = 0;
    while i < n
        invariant
            n == features.pairs().len(),
            0 <= i <= n,
            crate::features::names_sorted(features.pairs()),
            features@ == crate::features::pairs_map(features.pairs()),
            out@ == crate::features::pairs_map(features.pairs().take(i as int)),
        decreases n - i,
    {
        let (k, v) = features.pair(i);
        proof {
            crate::features::lemma_pairs_extend(features.pairs(), i as int);
        }
        out.insert(String::from_str(k), String::from_str(v));
        i = i + 1;
    }
    assert(features.pairs().take(n as int) =~= features.pairs());
    out
}

pub fn copy_decision(d: &StrategyDecision) -> (r: StrategyDecision)
    ensures
        r@ == d@,
{
    StrategyDecision {
        strategy_name: d.strategy_name.clone(),
        strategy_version: d.strategy_version.clone(),
        intents: copy_intents(&d.intents),
        features: copy_features(&d.features),
        rationale: d.rationale.clone(),
    }
}

/// Example deterministic strategy — entry-price starter.
///
/// Buys a fixed quantity the first time a symbol trades at or below its
/// configured entry price (no position yet).
pub struct EntryPriceStrategy {
    entry_prices: SymbolTable<Price>,
    quantity: Quantity,
}

pub open spec fn item_texts(s: Seq<(Symbol, Dec)>) -> Seq<Seq<char>> {
    Seq::new(s.len(), |i: int| s[i].0@)
}

impl EntryPriceStrategy {
    pub fn new(entry_prices: SymbolTable<Price>, quantity: Quantity) -> (r: EntryPriceStrategy)
        ensures
            r.entries() == entry_prices@,
            r.symbol_order() == item_texts(entry_prices.items()),
            r.order_quantity() == quantity,
    {
        EntryPriceStrategy { entry_prices, quantity }
    }

    pub closed spec fn entries(self) -> Map<Seq<char>, Dec> {
        self.entry_prices@
    }

    /// The tickers watched, in ticker order.
    pub closed spec fn symbol_order(self) -> Seq<Seq<char>> {
        item_texts(self.entry_prices.items())
    }

    pub closed spec fn order_quantity(self) -> i64 {
        self.quantity
    }

    /// What the strategy does for one watched symbol.
    pub open spec fn step(&self, snapshot: MarketSnapshot, s: Seq<char>) -> StepView {
        match quote_for(snapshot.quotes@, s) {
            None => StepView { intent: None, features: seq![(s, "no-quote"@)] },
            Some(q) => {
                let entry = self.entries()[s];
                let held = held_for(snapshot.positions@, s);
                StepView {
                    intent: if held == 0 && dec_le(q.last_price, entry) {
                        Some(
                            IntentView {
                                symbol: s,
                                side: OrderSide::Buy,
                                order_type: OrderType::Limit,
                                quantity: self.order_quantity(),
                                limit_price: Some(q.last_price),
                            },
                        )
                    } else {
                        None
                    },
                    features: seq![
                        (feature_key(s, "price"@), decimal_text(q.last_price)),
                        (feature_key(s, "entry"@), decimal_text(entry)),
                        (feature_key(s, "held"@), int_text(held as int)),
                    ],
                }
            },
        }
    }

    fn step_exec(&self, snapshot: &MarketSnapshot, symbol: &Symbol, entry: Dec, intents: &mut Vec<OrderIntent>, features: &mut Features)
        requires
            self.entries().contains_key(symbol@),
            self.entries()[symbol@] == entry,
        ensures
            intent_views(final(intents)@) == (match self.step(*snapshot, symbol@).intent {
                Some(x) => intent_views(old(intents)@).push(x),
                None => intent_views(old(intents)@),
            }),
            final(features)@ == insert_all(old(features)@, self.step(*snapshot, symbol@).features),
    {
        let ghost s = symbol@;
        let ghost m = features@;
        let ghost before = intents@;
        match find_quote(&snapshot.quotes, symbol) {
            None => {
                features.insert(String::from_str(symbol.as_str()), String::from_str("no-quote"));
                proof {
                    reveal_strlit("no-quote");
                    lemma_insert_all_small(m, (s, "no-quote"@), (s, s), (s, s));
                }
            },
            Some(k) => {
                let price = snapshot.quotes[k].last_price;
                let held = snapshot.held_shares(symbol);
                features.insert(feature_name(symbol, "price"), price.to_text());
                features.insert(feature_name(symbol, "entry"), entry.to_text());
                features.insert(feature_name(symbol, "held"), i64_text(held));
                if held == 0 && price.le(&entry) {
                    intents.push(
                        OrderIntent {
                            symbol: symbol.duplicate(),
                            side: OrderSide::Buy,
                            order_type: OrderType::Limit,
                            quantity: self.quantity,
                            limit_price: Some(price),
                        },
                    );
                }
                proof {
                    reveal_strlit("price");
                    reveal_strlit("entry");
                    reveal_strlit("held");
                    lemma_insert_all_small(
                        m,
                        (feature_key(s, "price"@), decimal_text(price)),
                        (feature_key(s, "entry"@), decimal_text(entry)),
                        (feature_key(s, "held"@), int_text(held as int)),
                    );
                    assert(intent_views(intents@) =~= (match self.step(*snapshot, s).intent {
                        Some(x) => intent_views(before).push(x),
                        None => intent_views(before),
                    }));
                }
            },
        }
    }
}

impl Strategy for EntryPriceStrategy {
    open spec fn label(&self) -> Seq<char> {
        "entry-price"@
    }

    open spec fn version_label(&self) -> Seq<char> {
        "1"@
    }

    open spec fn decision_for(&self, snapshot: MarketSnapshot) -> DecisionView {
        let symbols = self.symbol_order();
        let step = |s: Seq<char>| self.step(snapshot, s);
        let intents = fold_intents(symbols, step);
        DecisionView {
            name: "entry-price"@,
            version: "1"@,
            intents,
            features: fold_features(symbols, step),
            rationale: if intents.len() == 0 {
                "no entry signals"@
            } else {
                "buy symbols at/below entry with no existing position"@
            },
        }
    }

    fn name(&self) -> (r: &str) {
        "entry-price"
    }

    fn version(&self) -> (r: &str) {
        "1"
    }

    fn decide(&self, snapshot: &MarketSnapshot) -> (r: StrategyDecision) {
        self.entry_prices.check_items();
        let ghost symbols = self.symbol_order();
        let ghost step = |s: Seq<char>| self.step(*snapshot, s);
        let mut intents: Vec<OrderIntent> = Vec::new();
        let mut features = Features::new();
        let n = self.entry_prices.len();
        let mut i: usize = 0;
        while i < n
            invariant
                n == self.entry_prices.items().len(),
                0 <= i <= n,
                symbols == self.symbol_order(),
                symbols == item_texts(self.entry_prices.items()),
                crate::symbol_map::keys_unique(self.entry_prices.items()),
                self.entries() == crate::symbol_map::entries_to_map(self.entry_prices.items()),
                step == (|s: Seq<char>| self.step(*snapshot, s)),
                intent_views(intents@) == fold_intents(symbols.take(i as int), step),
                features@ == fold_features(symbols.take(i as int), step),
            decreases n - i,
        {
            proof {
                lemma_fold_step(symbols, step, i as int);
                crate::symbol_map::lemma_entries_at(self.entry_prices.items(), i as int);
            }
            let item = self.entry_prices.item(i);
            self.step_exec(snapshot, &item.0, item.1, &mut intents, &mut features);
            i = i + 1;
        }
        proof {
            assert(symbols.take(i as int) =~= symbols);
            reveal_strlit("entry-price");
            reveal_strlit("1");
            reveal_strlit("no entry signals");
            reveal_strlit("buy symbols at/below entry with no existing position");
        }
        let rationale = if intents.len() == 0 {
            String::from_str("no entry signals")
        } else {
            String::from_str("buy symbols at/below entry with no existing position")
        };
        StrategyDecision {
            strategy_name: String::from_str("entry-price"),
            strategy_version: String::from_str("1"),
            intents,
            features,
            rationale,
        }
    }
}

} // verus!
