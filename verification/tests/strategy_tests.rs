use lossfunction::decimal::Dec;
use lossfunction::domain::portfolio::PositionState;
use lossfunction::strategies::{rsi, DonchianBreakoutStrategy, RsiReversionStrategy, SmaCrossStrategy};
use lossfunction::strategies2::{BollingerReversionStrategy, MacdCrossStrategy, MomentumRotationStrategy, TabledBollinger};
use lossfunction::strategy::{DecisionLayer, EntryPriceStrategy, MarketSnapshot, Strategy, StrategyDecision};
use lossfunction::symbol_table::SymbolTable;
use lossfunction::types::{OrderSide, Quote, Symbol};
use rust_decimal::prelude::ToPrimitive;
use rust_decimal::Decimal;
use std::str::FromStr;

fn rd(d: &Dec) -> Decimal {
    Decimal::from_i128_with_scale(d.mantissa(), d.scale())
}

fn dec(text: &str) -> Dec {
    let d = Decimal::from_str(text).unwrap();
    Dec::from_parts(d.mantissa(), d.scale()).unwrap()
}

fn symbol(code: &str) -> Symbol {
    Symbol::parse(code).unwrap()
}

fn snapshot_of(histories: Vec<(&str, Vec<i64>)>, held: &[(&str, i64)]) -> MarketSnapshot {
    let mut quotes = Vec::new();
    let mut history = Vec::new();
    for (code, closes) in histories {
        quotes.push(Quote {
            symbol: symbol(code),
            last_price: Dec::from_i64(*closes.last().unwrap_or(&0)),
            timestamp: 0,
        });
        history.push((symbol(code), closes.iter().map(|v| Dec::from_i64(*v)).collect::<Vec<_>>()));
    }
    let positions = held
        .iter()
        .map(|(code, qty)| PositionState {
            symbol: symbol(code),
            quantity: *qty,
            average_price: Dec::from_i64(100),
            realized_pnl: Dec::zero(),
        })
        .collect();
    MarketSnapshot { quotes, positions, as_of: "t".into(), history }
}

fn snapshot(closes: &[i64], held: i64) -> MarketSnapshot {
    let held_list: Vec<(&str, i64)> = if held > 0 { vec![("005930", held)] } else { vec![] };
    snapshot_of(vec![("005930", closes.to_vec())], &held_list)
}

fn feature(decision: &StrategyDecision, name: &str) -> Option<String> {
    decision.features.get(name).map(|v| v.to_string())
}

fn features_of(decision: &StrategyDecision) -> Vec<(String, String)> {
    (0..decision.features.len())
        .map(|i| {
            let (k, v) = decision.features.pair(i);
            (k.to_string(), v.to_string())
        })
        .collect()
}

fn same_decision(a: &StrategyDecision, b: &StrategyDecision) -> bool {
    let intents = |d: &StrategyDecision| -> Vec<(String, OrderSide, i64, Option<Decimal>)> {
        d.intents
            .iter()
            .map(|i| (i.symbol.as_str().to_string(), i.side, i.quantity, i.limit_price.map(|p| rd(&p))))
            .collect()
    };
    a.strategy_name == b.strategy_name
        && a.strategy_version == b.strategy_version
        && a.rationale == b.rationale
        && intents(a) == intents(b)
        && features_of(a) == features_of(b)
}

fn sigmas(strategy: &BollingerReversionStrategy, view: &MarketSnapshot) -> Vec<(Symbol, Option<Dec>)> {
    strategy
        .symbols()
        .iter()
        .map(|s| {
            let sigma = view
                .closes_for(s)
                .and_then(|closes| strategy.moments(closes))
                .and_then(|(_, variance)| {
                    let v = rd(&variance).to_f64()?;
                    let d = Decimal::from_f64_retain(v.sqrt())?;
                    Dec::from_parts(d.mantissa(), d.scale())
                });
            (s.duplicate(), sigma)
        })
        .collect()
}

#[test]
fn golden_cross_buys_and_dead_cross_sells() {
    let mut lifted: Vec<i64> = vec![100; 20];
    lifted.push(300);
    let strategy = SmaCrossStrategy::new(vec![symbol("005930")], 3, 18, 10);
    let buy = strategy.decide(&snapshot(&lifted, 0));
    assert_eq!(buy.intents.len(), 1);
    assert_eq!(buy.intents[0].side, OrderSide::Buy);
    assert_eq!(feature(&buy, "005930:golden").as_deref(), Some("true"));

    let mut collapsed: Vec<i64> = vec![100; 20];
    collapsed.extend([150, 150, 150, 150, 150, 150, 30]);
    let sell = strategy.decide(&snapshot(&collapsed, 10));
    assert_eq!(sell.intents.len(), 1);
    assert_eq!(sell.intents[0].side, OrderSide::Sell);

    assert!(same_decision(&strategy.decide(&snapshot(&lifted, 0)), &buy));
}

#[test]
fn rsi_buys_oversold_sells_overbought() {
    let declining: Vec<i64> = (0..25).map(|i| 200 - (i as i64) * 6).collect();
    let oversold = RsiReversionStrategy::new(vec![symbol("005930")], 14, Dec::from_i64(30), Dec::from_i64(70), 10);
    let buy = oversold.decide(&snapshot(&declining, 0));
    assert_eq!(buy.intents.len(), 1, "rsi={}", feature(&buy, "005930:rsi").unwrap_or_default());
    assert_eq!(buy.intents[0].side, OrderSide::Buy);

    let rising: Vec<i64> = (0..25).map(|i| 100 + (i as i64) * 6).collect();
    let sell = oversold.decide(&snapshot(&rising, 10));
    assert_eq!(sell.intents.len(), 1);
    assert_eq!(sell.intents[0].side, OrderSide::Sell);

    let closes: Vec<Dec> = [100, 110, 105, 120, 90].iter().map(|v| Dec::from_i64(*v)).collect();
    let value = rsi(&closes, 4).unwrap();
    let expected = Decimal::from(100)
        - Decimal::from(100)
            / (Decimal::ONE + Decimal::from_str("6.25").unwrap() / Decimal::from_str("8.75").unwrap());
    assert_eq!(rd(&value), expected);
}

#[test]
fn donchian_breaks_out_and_exits() {
    let mut ranging: Vec<i64> = vec![100, 102, 98, 101, 99, 103, 97, 100];
    ranging.push(140);
    let breakout = DonchianBreakoutStrategy::new(vec![symbol("005930")], 8, 10);
    let buy = breakout.decide(&snapshot(&ranging, 0));
    assert_eq!(buy.intents.len(), 1);
    assert_eq!(buy.intents[0].side, OrderSide::Buy);

    let mut falling = ranging;
    falling.push(60);
    let sell = breakout.decide(&snapshot(&falling, 10));
    assert_eq!(sell.intents.len(), 1);
    assert_eq!(sell.intents[0].side, OrderSide::Sell);

    let flat = vec![100; 10];
    assert!(breakout.decide(&snapshot(&flat, 0)).intents.is_empty());
}

#[test]
fn sells_only_when_held() {
    let declining: Vec<i64> = (0..25).map(|i| 200 - (i as i64) * 6).collect();
    let strategy = RsiReversionStrategy::new(vec![symbol("005930")], 14, Dec::from_i64(30), Dec::from_i64(70), 10);
    let rising: Vec<i64> = (0..25).map(|i| 100 + (i as i64) * 6).collect();
    assert!(strategy.decide(&snapshot(&rising, 0)).intents.is_empty());
    assert!(strategy.decide(&snapshot(&declining, 5)).intents.is_empty());
}

#[test]
fn bollinger_buys_lower_sells_upper() {
    let strategy = BollingerReversionStrategy::new(vec![symbol("005930")], 20, Dec::from_i64(2), 10);
    let mut closes = vec![100; 25];
    closes.push(60);
    let view = snapshot_of(vec![("005930", closes.clone())], &[]);
    let buy = strategy.decide_with(&view, &sigmas(&strategy, &view));
    assert_eq!(buy.intents.len(), 1);
    assert_eq!(buy.intents[0].side, OrderSide::Buy);

    let mut rally = vec![100; 25];
    rally.push(140);
    let view = snapshot_of(vec![("005930", rally)], &[("005930", 10)]);
    let sell = strategy.decide_with(&view, &sigmas(&strategy, &view));
    assert_eq!(sell.intents.len(), 1);
    assert_eq!(sell.intents[0].side, OrderSide::Sell);

    let view = snapshot_of(vec![("005930", closes)], &[]);
    assert!(same_decision(&strategy.decide_with(&view, &sigmas(&strategy, &view)), &buy));
}

#[test]
fn momentum_ranks_and_exits() {
    let rising: Vec<i64> = (0..260).map(|i| 100 + i).collect();
    let flat: Vec<i64> = vec![100; 260];
    let falling: Vec<i64> = (0..260).map(|i| 300 - i).collect();
    let strategy = MomentumRotationStrategy::new(vec![symbol("005930"), symbol("035420"), symbol("069500")], 1, 10);
    let view = snapshot_of(
        vec![("005930", rising), ("035420", flat), ("069500", falling)],
        &[("069500", 10)],
    );
    let decision = strategy.decide(&view);
    assert!(decision.intents.iter().any(|i| i.side == OrderSide::Buy && i.symbol.as_str() == "005930"));
    assert!(decision.intents.iter().any(|i| i.side == OrderSide::Sell && i.symbol.as_str() == "069500"));
}

#[test]
fn macd_detects_crossovers() {
    let strategy = MacdCrossStrategy::new(vec![symbol("005930")], 12, 26, 9, 10);
    let mut series: Vec<i64> = vec![100; 50];
    series.extend([100, 100, 100, 200]);
    let buy = strategy.decide(&snapshot_of(vec![("005930", series)], &[]));
    assert!(buy.intents.iter().any(|i| i.side == OrderSide::Buy));

    let mut repeat: Vec<i64> = vec![100; 50];
    repeat.extend([100, 100, 100, 200]);
    let again = strategy.decide(&snapshot_of(vec![("005930", repeat)], &[]));
    assert!(same_decision(&buy, &again));
}

#[test]
fn ema_matches_definition_on_tiny_series() {
    let closes: Vec<Dec> = [1, 2, 3, 4, 5].iter().map(|v| Dec::from_i64(*v)).collect();
    let ema3 = MacdCrossStrategy::ema_series(&closes, 3).unwrap();
    assert_eq!(ema3.len(), 3);
    assert_eq!(rd(&ema3[0]), Decimal::from(2));
    assert_eq!(rd(&ema3[1]), Decimal::from(3));
    assert_eq!(rd(&ema3[2]), Decimal::from(4));
}

fn entry_snapshot() -> MarketSnapshot {
    let quotes = [("005930", 79_000i64), ("035420", 42_000)]
        .iter()
        .map(|(code, price)| Quote { symbol: symbol(code), last_price: Dec::from_i64(*price), timestamp: 0 })
        .collect();
    MarketSnapshot { quotes, positions: Vec::new(), as_of: "session-1".to_string(), history: Vec::new() }
}

fn entry_strategy() -> EntryPriceStrategy {
    let mut table = SymbolTable::new();
    table.insert(symbol("005930"), Dec::from_i64(80_000));
    table.insert(symbol("035420"), Dec::from_i64(41_000));
    EntryPriceStrategy::new(table, 5)
}

#[test]
fn buys_at_entry_and_records_features() {
    let decision = entry_strategy().decide(&entry_snapshot());
    assert_eq!(decision.strategy_name, "entry-price");
    assert_eq!(decision.intents.len(), 1);
    let intent = &decision.intents[0];
    assert_eq!(intent.symbol.as_str(), "005930");
    assert_eq!(intent.limit_price.map(|p| rd(&p)), Some(Decimal::from(79_000)));
    assert_eq!(feature(&decision, "035420:price").as_deref(), Some("42000"));
    assert_eq!(feature(&decision, "035420:entry").as_deref(), Some("41000"));
}

#[test]
fn same_snapshot_yields_identical_decisions() {
    let first = entry_strategy().decide(&entry_snapshot());
    let second = entry_strategy().decide(&entry_snapshot());
    assert!(same_decision(&first, &second));

    let mut layer = DecisionLayer::new(entry_strategy());
    let a = layer.decide(&entry_snapshot());
    let b = layer.decide(&entry_snapshot());
    assert!(same_decision(&a, &b));
}

#[test]
fn skips_held_symbols_and_missing_quotes() {
    let mut held = entry_snapshot();
    held.positions.push(PositionState {
        symbol: symbol("005930"),
        quantity: 3,
        average_price: Dec::from_i64(78_000),
        realized_pnl: Dec::zero(),
    });
    let decision = entry_strategy().decide(&held);
    assert!(decision.intents.is_empty());
    assert_eq!(feature(&decision, "005930:held").as_deref(), Some("3"));

    let mut table = SymbolTable::new();
    table.insert(symbol("999999"), Dec::from_i64(1_000));
    let watcher = EntryPriceStrategy::new(table, 5);
    let decision = watcher.decide(&entry_snapshot());
    assert!(decision.intents.is_empty());
    assert_eq!(feature(&decision, "999999").as_deref(), Some("no-quote"));
}

#[test]
fn decision_layer_records_input_and_output() {
    let mut layer = DecisionLayer::new(entry_strategy());
    let decision = layer.decide(&entry_snapshot());
    let recorded = layer.decisions();
    assert_eq!(recorded.len(), 1);
    assert!(same_decision(&recorded[0], &decision));
}

#[test]
fn fractional_prices_survive_features() {
    let mut table = SymbolTable::new();
    table.insert(symbol("005930"), dec("80000.5"));
    let strategy = EntryPriceStrategy::new(table, 1);
    let decision = strategy.decide(&entry_snapshot());
    assert_eq!(feature(&decision, "005930:entry").as_deref(), Some("80000.5"));
}

#[test]
fn tabled_bollinger_decides_as_the_supplied_roots_do() {
    let mut closes = vec![100; 25];
    closes.push(60);
    let view = snapshot_of(vec![("005930", closes)], &[]);
    let plain = BollingerReversionStrategy::new(vec![symbol("005930")], 20, Dec::from_i64(2), 10);
    let supplied = sigmas(&plain, &view);
    let variance = plain.moments(view.closes_for(&symbol("005930")).unwrap()).unwrap().1;
    let root = supplied[0].1.expect("the window has a root");
    let expected = plain.decide_with(&view, &supplied);

    let tabled = TabledBollinger::new(
        BollingerReversionStrategy::new(vec![symbol("005930")], 20, Dec::from_i64(2), 10),
        vec![(Dec::from_i64(7), Dec::from_i64(1)), (variance, root)],
    );
    let decision = tabled.decide(&view);
    assert_eq!(decision.intents.len(), 1);
    assert_eq!(decision.intents[0].side, OrderSide::Buy);
    assert!(same_decision(&decision, &expected));
    assert_eq!(tabled.name(), "bollinger-reversion");

    // A window whose variance the table lacks gives no signal.
    let bare = TabledBollinger::new(
        BollingerReversionStrategy::new(vec![symbol("005930")], 20, Dec::from_i64(2), 10),
        vec![(Dec::from_i64(7), Dec::from_i64(1))],
    );
    assert!(bare.decide(&view).intents.is_empty());
}
