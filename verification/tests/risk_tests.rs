use lossfunction::decimal::Dec;
use lossfunction::domain::order::{Order, OrderStatus, RestoredOrder};
use lossfunction::domain::portfolio::{Fill, Portfolio};
use lossfunction::risk::{RejectionReason, RiskLimits, RiskManager};
use lossfunction::types::{OrderSide, OrderType, Quote, Symbol};
use rust_decimal::Decimal;

const NOW: i64 = 0;

fn rd(d: &Dec) -> Decimal {
    Decimal::from_i128_with_scale(d.mantissa(), d.scale())
}

fn limits() -> RiskLimits {
    RiskLimits {
        max_order_notional: Dec::from_i64(10_000_000),
        max_position_quantity: 100,
        max_gross_exposure: Dec::from_i64(30_000_000),
        daily_loss_limit: Dec::from_i64(500_000),
        stale_quote_max_age_ms: 10_000,
    }
}

fn symbol(code: &str) -> Symbol {
    Symbol::parse(code).unwrap()
}

fn order_of(code: &str, side: OrderSide, quantity: i64) -> Order {
    Order::restored(RestoredOrder {
        client_order_id: "c-1".into(),
        symbol: symbol(code),
        side,
        order_type: OrderType::Market,
        quantity,
        limit_price: None,
        status: OrderStatus::Pending,
        filled_quantity: 0,
    })
    .unwrap()
}

fn order(quantity: i64) -> Order {
    order_of("005930", OrderSide::Buy, quantity)
}

fn quotes(now: i64, price: i64) -> Vec<Quote> {
    vec![Quote { symbol: symbol("005930"), last_price: Dec::from_i64(price), timestamp: now }]
}

fn bought(portfolio: Portfolio, code: &str, side: OrderSide, quantity: i64, price: i64) -> Portfolio {
    portfolio
        .apply_fill(Fill {
            client_order_id: "x".into(),
            symbol: symbol(code),
            side,
            quantity,
            price: Dec::from_i64(price),
        })
        .unwrap()
}

#[test]
fn within_limits_passes_and_returns_notional() {
    let manager = RiskManager::new(limits());
    let notional = manager.check_order(&order(10), &Portfolio::new(), &quotes(NOW, 80_000), NOW).unwrap();
    assert_eq!(rd(&notional), Decimal::from(800_000));
}

#[test]
fn notional_limit_blocks() {
    let mut limits = limits();
    limits.max_order_notional = Dec::from_i64(500_000);
    let manager = RiskManager::new(limits);
    let rejection = manager.check_order(&order(10), &Portfolio::new(), &quotes(NOW, 80_000), NOW).unwrap_err();
    assert_eq!(rejection.reason, RejectionReason::OrderNotionalExceeded);
}

#[test]
fn position_cap_blocks_buys_not_sells() {
    let portfolio = bought(Portfolio::new(), "005930", OrderSide::Buy, 95, 80_000);
    let manager = RiskManager::new(limits());
    let rejection = manager.check_order(&order(10), &portfolio, &quotes(NOW, 80_000), NOW).unwrap_err();
    assert_eq!(rejection.reason, RejectionReason::PositionQuantityExceeded);

    let sell = order_of("005930", OrderSide::Sell, 10);
    assert!(manager.check_order(&sell, &portfolio, &quotes(NOW, 80_000), NOW).is_ok());
}

#[test]
fn gross_exposure_blocks_with_multi_symbol_book() {
    let map: Vec<Quote> = ["005930", "035420", "069500"]
        .iter()
        .map(|code| Quote { symbol: symbol(code), last_price: Dec::from_i64(200_000), timestamp: NOW })
        .collect();
    let mut portfolio = Portfolio::new();
    for code in ["005930", "035420"] {
        portfolio = bought(portfolio, code, OrderSide::Buy, 100, 200_000);
    }
    let fresh_symbol_order = order_of("069500", OrderSide::Buy, 10);
    let manager = RiskManager::new(limits());
    let rejection = manager.check_order(&fresh_symbol_order, &portfolio, &map, NOW).unwrap_err();
    assert_eq!(rejection.reason, RejectionReason::GrossExposureExceeded);
}

#[test]
fn daily_loss_limit_blocks_all_sides() {
    let mut portfolio = Portfolio::new();
    for (side, price) in [(OrderSide::Buy, 80_000i64), (OrderSide::Sell, 74_000)] {
        portfolio = bought(portfolio, "005930", side, 100, price);
    }
    let manager = RiskManager::new(limits());
    for side in [OrderSide::Buy, OrderSide::Sell] {
        let order = order_of("005930", side, 1);
        let rejection = manager.check_order(&order, &portfolio, &quotes(NOW, 80_000), NOW).unwrap_err();
        assert_eq!(rejection.reason, RejectionReason::DailyLossLimitExceeded);
    }
}

#[test]
fn stale_or_missing_quote_blocks() {
    let manager = RiskManager::new(limits());
    let stale = 1_000_000_000 - 30_000_000_000;
    assert_eq!(
        manager.check_order(&order(1), &Portfolio::new(), &quotes(stale, 80_000), NOW).unwrap_err().reason,
        RejectionReason::StaleMarketData
    );
    assert_eq!(
        manager.check_order(&order(1), &Portfolio::new(), &Vec::new(), NOW).unwrap_err().reason,
        RejectionReason::NoQuote
    );
}

#[test]
fn kill_switch_blocks_every_path_and_precedes_quotes() {
    let mut manager = RiskManager::new(limits());
    manager.activate_kill_switch("manual halt");
    assert!(manager.kill_switch_active());
    assert_eq!(manager.kill_reason().as_deref(), Some("manual halt"));

    let rejection = manager.check_order(&order(1), &Portfolio::new(), &Vec::new(), NOW).unwrap_err();
    assert_eq!(rejection.reason, RejectionReason::KillSwitch);
    assert_eq!(rejection.message(), "kill_switch: kill switch active: manual halt");

    manager.deactivate_kill_switch();
    assert!(!manager.kill_switch_active());
    assert!(manager.check_order(&order(1), &Portfolio::new(), &quotes(NOW, 80_000), NOW).is_ok());
}

#[test]
fn stale_message_reports_ages_in_seconds() {
    let manager = RiskManager::new(limits());
    let rejection =
        manager.check_order(&order(1), &Portfolio::new(), &quotes(-29_000_000_000, 80_000), NOW).unwrap_err();
    assert_eq!(rejection.detail, "quote for 005930 is 29s old (max 10s)");
}
