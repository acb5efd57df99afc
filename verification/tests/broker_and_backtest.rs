use lossfunction::backtest::bar_snapshot;
use lossfunction::domain::portfolio::Portfolio;
use lossfunction::history::HistoryWindow;
use lossfunction::symbol_map::SymbolMap;
use lossfunction::types::Quote;
use lossfunction::backtest::{BacktestConfig, BacktestEngine, BacktestFeed, BacktestResult, Bar};
use lossfunction::backtest_optimize::{backtest_built, kept_for_validation, param_grid, rank_by_value, walk_forward, walk_forward_check};
use lossfunction::broker::mock::MockBroker;
use lossfunction::broker::{BrokerError, OrderRequest};
use lossfunction::decimal::Dec;
use lossfunction::strategy::EntryPriceStrategy;
use lossfunction::symbol_table::SymbolTable;
use lossfunction::types::{OrderSide, OrderType, Symbol};
use rust_decimal::Decimal;
use std::str::FromStr;

fn rd(d: &Dec) -> Decimal {
    Decimal::from_i128_with_scale(d.mantissa(), d.scale())
}

fn dec(text: &str) -> Dec {
    let d = Decimal::from_str(text).unwrap();
    Dec::from_parts(d.mantissa(), d.scale()).unwrap()
}

fn symbol() -> Symbol {
    Symbol::parse("005930").unwrap()
}

fn request(id: &str) -> OrderRequest {
    OrderRequest {
        client_order_id: id.into(),
        symbol: symbol(),
        side: OrderSide::Buy,
        order_type: OrderType::Market,
        quantity: 10,
        limit_price: None,
    }
}

fn broker() -> MockBroker {
    let mut broker = MockBroker::new();
    broker.set_price(&symbol(), Dec::from_i64(80_000));
    broker
}

#[test]
fn market_order_fills_and_updates_position() {
    let mut broker = broker();
    let ack = broker.submit_order(&request("c-1"), 0).unwrap();
    let report = broker.execution_report(&ack.broker_order_id).unwrap();
    assert_eq!(report.filled_quantity, 10);
    assert_eq!(report.average_fill_price.map(|p| rd(&p)), Some(Decimal::from(80_000)));
    assert!(!report.open);

    let positions = broker.positions();
    assert_eq!(positions.len(), 1);
    assert_eq!(positions[0].quantity, 10);
    assert_eq!(rd(&positions[0].average_price), Decimal::from(80_000));
}

#[test]
fn submit_is_idempotent_on_client_order_id() {
    let mut broker = broker();
    let first = broker.submit_order(&request("c-1"), 0).unwrap();
    let again = broker.submit_order(&request("c-1"), 0).unwrap();
    assert_eq!(first.client_order_id, again.client_order_id);
    assert_eq!(first.broker_order_id, again.broker_order_id);
    let positions = broker.positions();
    assert_eq!(positions[0].quantity, 10);
}

#[test]
fn mock_average_price_blends_across_buys() {
    let mut broker = broker();
    broker.submit_order(&request("c-1"), 0).unwrap();
    broker.set_price(&symbol(), Dec::from_i64(82_000));
    broker.submit_order(&request("c-2"), 0).unwrap();
    let positions = broker.positions();
    assert_eq!(positions[0].quantity, 20);
    assert_eq!(rd(&positions[0].average_price), Decimal::from(81_000));
}

#[test]
fn limit_cross_fills_at_limit_price() {
    let mut broker = broker();
    let request = OrderRequest {
        client_order_id: "c-l".into(),
        symbol: symbol(),
        side: OrderSide::Buy,
        order_type: OrderType::Limit,
        quantity: 10,
        limit_price: Some(dec("80000.5")),
    };
    let ack = broker.submit_order(&request, 0).unwrap();
    let report = broker.execution_report(&ack.broker_order_id).unwrap();
    assert!(!report.open);
    assert_eq!(report.average_fill_price.map(|p| rd(&p)), Some(Decimal::from_str("80000.5").unwrap()));
}

#[test]
fn limit_below_market_stays_open_until_cancelled() {
    let mut broker = broker();
    let request = OrderRequest {
        client_order_id: "c-l".into(),
        symbol: symbol(),
        side: OrderSide::Buy,
        order_type: OrderType::Limit,
        quantity: 10,
        limit_price: Some(Dec::from_i64(79_000)),
    };
    let ack = broker.submit_order(&request, 0).unwrap();
    let report = broker.execution_report(&ack.broker_order_id).unwrap();
    assert!(report.open);
    assert_eq!(report.filled_quantity, 0);

    broker.cancel_order(&ack.broker_order_id, 1).unwrap();
    let report = broker.execution_report(&ack.broker_order_id).unwrap();
    assert!(!report.open);

    assert!(matches!(broker.cancel_order(&ack.broker_order_id, 2), Err(BrokerError::NotOpen(_))));
}

#[test]
fn sell_reduces_position_and_keeps_average() {
    let mut broker = broker();
    broker.submit_order(&request("c-1"), 0).unwrap();
    let sell = OrderRequest {
        client_order_id: "c-2".into(),
        symbol: symbol(),
        side: OrderSide::Sell,
        order_type: OrderType::Market,
        quantity: 4,
        limit_price: None,
    };
    broker.submit_order(&sell, 0).unwrap();
    let positions = broker.positions();
    assert_eq!(positions[0].quantity, 6);
    assert_eq!(rd(&positions[0].average_price), Decimal::from(80_000));

    let unknown = Symbol::parse("999999").unwrap();
    assert!(matches!(broker.quote(&unknown, 0), Err(BrokerError::UnknownSymbol(_))));
}

fn bars(closes: &[i64]) -> Vec<Bar> {
    closes
        .iter()
        .enumerate()
        .map(|(i, close)| Bar {
            symbol: symbol(),
            timestamp: (1_700_000_000 + i as i64) * 1_000_000_000,
            close: Dec::from_i64(*close),
        })
        .collect()
}

fn entry_at(price: i64, quantity: i64) -> EntryPriceStrategy {
    let mut table = SymbolTable::new();
    table.insert(symbol(), Dec::from_i64(price));
    EntryPriceStrategy::new(table, quantity)
}

#[test]
fn feed_rejects_future_access_and_sorts() {
    let mut feed = BacktestFeed::new(bars(&[1, 2, 3]));
    feed.advance().unwrap();
    assert!(feed.bar_at(1).is_err());
    assert!(feed.bar_at(2).is_err());
    assert_eq!(rd(&feed.bar_at(0).unwrap().close), Decimal::from(1));

    let mut time_reversed = bars(&[1, 3]);
    time_reversed.reverse();
    let mut feed = BacktestFeed::new(time_reversed);
    assert_eq!(rd(&feed.advance().unwrap().close), Decimal::from(1));
}

#[test]
fn costs_reflected_in_equity() {
    let config = BacktestConfig {
        initial_cash: Dec::from_i64(1_000_000),
        commission_rate: dec("0.001"),
        tax_rate: dec("0.01"),
        history_capacity: 10,
    };
    // Buys 10 at the entry price on the first bar, then holds.
    let engine = BacktestEngine::new(entry_at(80_000, 10), config).with_bar_pricing();
    let mut broker = MockBroker::new();
    let result = engine.run(bars(&[80_000, 90_000, 90_000]), &mut broker, 0).unwrap();

    let rate = Decimal::from_str("0.001").unwrap();
    let buy_notional = Decimal::from(10) * Decimal::from(80_000);
    let expected_commission = buy_notional * rate;

    assert_eq!(rd(&result.total_commission), expected_commission);
    assert_eq!(rd(&result.total_tax), Decimal::ZERO);
    assert_eq!(rd(&result.cash), Decimal::from(1_000_000) - buy_notional - expected_commission);
    assert_eq!(rd(&result.equity), rd(&result.cash) + Decimal::from(10) * Decimal::from(90_000));
    assert_eq!(result.fills.len(), 1);
    assert_eq!(result.equity_curve.len(), 3);
    // The venue ends priced at the last close, and keeps the order it took.
    let quote = broker.quote(&symbol(), 0).unwrap();
    assert_eq!(rd(&quote.last_price), Decimal::from(90_000));
    assert_eq!(broker.execution_report("MOCK-1").unwrap().client_order_id, "bt-0001");
}

#[test]
fn unfilled_limit_orders_cost_nothing() {
    // The entry is far below the market: no order, no fill, no cost.
    let engine = BacktestEngine::new(entry_at(1_000, 10), BacktestConfig::default_config()).with_bar_pricing();
    let mut broker = MockBroker::new();
    let result = engine.run(bars(&[80_000, 80_000]), &mut broker, 0).unwrap();
    assert!(result.fills.is_empty());
    assert_eq!(rd(&result.total_commission), Decimal::ZERO);
    assert_eq!(rd(&result.cash), rd(&BacktestConfig::default_config().initial_cash));
}

#[test]
fn empty_series_keeps_initial_cash() {
    let engine = BacktestEngine::new(entry_at(10, 10), BacktestConfig::default_config()).with_bar_pricing();
    let mut broker = MockBroker::new();
    let result = engine.run(Vec::new(), &mut broker, 0).unwrap();
    assert!(result.fills.is_empty());
    assert!(result.equity_curve.is_empty());
    assert_eq!(rd(&result.cash), rd(&BacktestConfig::default_config().initial_cash));
    assert_eq!(rd(&result.equity), rd(&BacktestConfig::default_config().initial_cash));
    assert_eq!(rd(&result.total_tax), Decimal::ZERO);
}

fn summary(result: &BacktestResult) -> (Decimal, Decimal, Decimal, Decimal, Vec<(i64, Decimal)>, Vec<(String, i64, Decimal)>) {
    (
        rd(&result.cash),
        rd(&result.total_commission),
        rd(&result.total_tax),
        rd(&result.equity),
        result.equity_curve.iter().map(|(t, e)| (*t, rd(e))).collect(),
        result.fills.iter().map(|f| (f.client_order_id.clone(), f.quantity, rd(&f.price))).collect(),
    )
}

#[test]
fn same_inputs_reproduce_identical_results() {
    let run = || {
        let engine = BacktestEngine::new(entry_at(10, 10), BacktestConfig::default_config()).with_bar_pricing();
        let mut broker = MockBroker::new();
        engine.run(bars(&[10, 5, 20, 15]), &mut broker, 0).unwrap()
    };
    let first = run();
    let second = run();
    assert_eq!(summary(&first), summary(&second));
    assert_eq!(first.fills[0].client_order_id, "bt-0001");
}

#[test]
fn grids_are_bounded_and_include_defaults() {
    for key in [
        "sma-cross",
        "rsi-reversion",
        "donchian-breakout",
        "bollinger-reversion",
        "macd-cross",
        "momentum-rotation",
    ] {
        let grid = param_grid(key);
        assert!(!grid.is_empty(), "{key} grid empty");
        assert!(grid.len() <= 16, "{key} grid too large: {}", grid.len());
        assert!(grid.iter().any(|p| p.is_default()), "{key} missing default baseline");
    }
    assert!(param_grid("ghost").is_empty());
}

#[test]
fn ranking_is_descending_and_stable() {
    let values = vec![
        Dec::from_i64(5),
        Dec::from_parts(700, 2).unwrap(),
        Dec::from_i64(7),
        Dec::from_i64(1),
        Dec::from_i64(5),
    ];
    assert_eq!(rank_by_value(&values), vec![1, 2, 0, 4, 3]);
    assert!(rank_by_value(&Vec::new()).is_empty());
}

#[test]
fn validation_keeps_the_leaders_and_the_default() {
    let ranked = vec![3, 1, 0, 2];
    let defaults = vec![false, false, true, false];
    assert_eq!(kept_for_validation(&ranked, &defaults, 2), vec![3, 1, 2]);
    assert_eq!(kept_for_validation(&ranked, &defaults, 4), vec![3, 1, 0, 2]);
    assert_eq!(kept_for_validation(&ranked, &vec![false; 4], 9), vec![3, 1, 0, 2]);
}

#[test]
fn walk_forward_refuses_short_or_ungridded_runs() {
    assert_eq!(walk_forward_check("nope", 0, 500, 350).unwrap_err(), "전략 'nope'에 정의된 파라미터 격자가 없음");
    assert_eq!(walk_forward_check("sma-cross", 4, 119, 83).unwrap_err(), "봉 부족: 119개 (120 이상 필요)");
    assert_eq!(walk_forward_check("sma-cross", 4, 120, 100).unwrap_err(), "훈련/검증 구간이 너무 짧음");
    assert_eq!(walk_forward_check("sma-cross", 4, 200, 50).unwrap_err(), "훈련/검증 구간이 너무 짧음");
    assert!(walk_forward_check("sma-cross", 4, 200, 140).is_ok());
}

#[test]
fn walk_forward_needs_history() {
    let grid = param_grid("sma-cross");
    assert!(!grid.is_empty());
    let bars = 50usize;
    let cut = (bars as f64 * 0.7) as usize;
    assert_eq!(walk_forward_check("sma-cross", grid.len(), bars, cut).unwrap_err(), "봉 부족: 50개 (120 이상 필요)");
}

#[test]
fn walk_forward_refuses_short_series() {
    let series = bars(&[100; 50]);
    let err = walk_forward(&series, "sma-cross", &vec![symbol()], BacktestConfig::default_config(), 35, 3, &Vec::new(), 0)
        .err()
        .unwrap();
    assert_eq!(err, "봉 부족: 50개 (120 이상 필요)");
    let err = walk_forward(&series, "nope", &vec![symbol()], BacktestConfig::default_config(), 35, 3, &Vec::new(), 0)
        .err()
        .unwrap();
    assert_eq!(err, "전략 'nope'에 정의된 파라미터 격자가 없음");
}

#[test]
fn walk_forward_ranks_kept_sets_by_validation() {
    let closes: Vec<i64> = (0..160).map(|i| 10_000 + ((i * 37) % 23) * 100 + i * 10).collect();
    let series = bars(&closes);
    let out = walk_forward(&series, "sma-cross", &vec![symbol()], BacktestConfig::default_config(), 112, 3, &Vec::new(), 0).unwrap();
    // The top three by training plus the default, unless it is among them.
    assert!(out.len() == 3 || out.len() == 4);
    assert_eq!(out.iter().filter(|o| o.is_default).count(), 1);
    for pair in out.windows(2) {
        assert!(rd(&pair[0].validation_equity) >= rd(&pair[1].validation_equity));
    }
    let grid = param_grid("sma-cross");
    for o in &out {
        assert_eq!(o.label, grid[o.index].label());
    }
}

#[test]
fn backtest_of_a_built_set_over_no_bars_keeps_cash() {
    let grid = param_grid("sma-cross");
    let result = backtest_built(grid[0].build(&vec![symbol()], 10), BacktestConfig::default_config(), Vec::new(), &Vec::new(), 0).unwrap();
    assert!(result.equity_curve.is_empty());
    assert_eq!(rd(&result.equity), rd(&BacktestConfig::default_config().initial_cash));
}

#[test]
fn snapshot_shows_the_window_before_the_bar() {
    let mut history = HistoryWindow::new(2);
    history.push(&symbol(), Dec::from_i64(1));
    history.push(&symbol(), Dec::from_i64(2));
    history.push(&symbol(), Dec::from_i64(3));
    let mut quotes: SymbolMap<Quote> = SymbolMap::new();
    quotes.insert(symbol(), Quote { symbol: symbol(), last_price: Dec::from_i64(4), timestamp: 7 });
    let snap = bar_snapshot(&quotes, &Portfolio::new(), 0, &history);
    assert_eq!(snap.history.len(), 1);
    let closes: Vec<Decimal> = snap.history[0].1.iter().map(rd).collect();
    assert_eq!(closes, vec![Decimal::from(2), Decimal::from(3)]);
    assert_eq!(snap.quotes.len(), 1);
    assert!(snap.positions.is_empty());
    assert_eq!(snap.as_of, "1970-01-01T00:00:00+00:00");
}

#[test]
fn equity_curve_is_cash_plus_positions_at_each_close() {
    let engine = BacktestEngine::new(entry_at(100_000, 10), BacktestConfig::default_config()).with_bar_pricing();
    let mut broker = MockBroker::new();
    let result = engine.run(bars(&[80_000, 85_000, 90_000]), &mut broker, 0).unwrap();
    assert_eq!(result.fills.len(), 1);
    let cash = rd(&result.cash);
    assert_eq!(rd(&result.equity_curve[0].1), cash + Decimal::from(10 * 80_000));
    assert_eq!(rd(&result.equity_curve[1].1), cash + Decimal::from(10 * 85_000));
    assert_eq!(rd(&result.equity_curve[2].1), cash + Decimal::from(10 * 90_000));
    assert_eq!(rd(&result.equity), rd(&result.equity_curve[2].1));
}
